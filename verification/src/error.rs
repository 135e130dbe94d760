//! The engine's error taxonomy.
//!
//! Two variants are expected terminal signals of the generation loop rather
//! than defects: `Eos` reports that the sampled token belongs to the
//! end-of-sequence set, and `MaxNewTokenExceeded` that the token budget is
//! spent. The remaining variants carry fatal failures through unchanged.

use vstd::prelude::*;

verus! {

#[derive(Debug)]
pub enum EngineError {
    /// The sampled token is in the end-of-sequence set; `generated` counts
    /// every token sampled in the session, including this one.
    Eos { eos_token_id: u32, generated: usize },
    /// The step was asked for after the configured budget of new tokens had
    /// already been produced.
    MaxNewTokenExceeded { max_new_tokens: usize },
    /// A failure described only by a message.
    Msg(String),
    /// A failure inside the model or tensor runtime; fatal to the session.
    Candle(candle_core::Error),
    /// A failure while parsing a JSON document; fatal.
    Json(serde_json::Error),
}

} // verus!
