//! Verified core of a token-generation engine: sampling-policy resolution,
//! an autoregressive generation loop, an incremental streaming detokenizer,
//! and weight-shard index deduplication. Model inference, tokenizer decoding
//! and JSON parsing are reached through narrow trusted interfaces; everything
//! around them is specified and proved.

pub mod candle;
pub mod generation;
pub mod message;
pub mod repo;
pub mod stream;
pub mod tokenizer;
pub mod vocab;
pub mod error;
pub mod ieee;
pub mod json;

use vstd::prelude::*;

verus! {

/// The model capability the generation loop drives: one forward pass over a
/// context window starting at a position, and a reset of whatever recurrent
/// cache the model keeps between calls. The loop depends on nothing else of
/// the model.
pub trait Module {
    /// Scores for the next position, given a batched context-window tensor
    /// and the position its first token has in the full history.
    fn forward(
        &mut self,
        x: &candle_core::Tensor,
        start_pos: usize,
    ) -> Result<candle_core::Tensor, candle_core::Error>;

    /// Clears the model's recurrent cache; the next forward pass starts a
    /// fresh sequence.
    fn reset(&mut self);
}

} // verus!
