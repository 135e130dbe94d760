//! Chat messages: the input of a prompt-rendering step.
//!
//! A prompt is either plain text or an ordered list of role/content pairs
//! that a chat template turns into text; the engine itself only carries
//! these values through.

use vstd::prelude::*;

verus! {

/// One chat turn: who speaks, and what.
#[derive(Debug, Clone)]
pub struct ChatMsg {
    pub role: String,
    pub content: String,
}

/// What a generation request starts from: ready prompt text, or a chat to
/// be rendered by a template.
#[derive(Debug)]
pub enum Msg {
    Text(String),
    Chat(Vec<ChatMsg>),
}

} // verus!
