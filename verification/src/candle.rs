//! Trusted view of the tensor runtime.
//!
//! Tensors, devices and the stateful sampler are opaque values here: the
//! generation loop moves them between the model capability and the sampler
//! and takes every decision — budget, context window, penalty gating,
//! end-of-sequence detection — in verified code on plain values.

use vstd::prelude::*;

use crate::error::EngineError;

verus! {

#[verifier::external_type_specification]
#[verifier::external_body]
pub struct ExTensor(candle_core::Tensor);

#[verifier::external_type_specification]
#[verifier::external_body]
pub struct ExDevice(candle_core::Device);

#[verifier::external_type_specification]
#[verifier::external_body]
pub struct ExCandleError(candle_core::Error);

#[verifier::external_type_specification]
#[verifier::external_body]
pub struct ExLogitsProcessor(candle_transformers::generation::LogitsProcessor);

/// The integer cells a token tensor holds, flattened in row-major order.
pub uninterp spec fn spec_token_cells(t: candle_core::Tensor) -> Seq<u32>;

/// The score cells a tensor holds, flattened in row-major order, each as the
/// IEEE-754 bit pattern of a single-precision value.
pub uninterp spec fn spec_score_cells(t: candle_core::Tensor) -> Seq<u32>;

/// What the repetition-penalty transform yields for given scores, penalty
/// bits and context window: a pure function of those three, named here and
/// supplied by candle.
pub uninterp spec fn spec_penalized(
    scores: Seq<u32>,
    penalty_bits: u32,
    context: Seq<u32>,
) -> Seq<u32>;

/// Relies on candle_core::Tensor::new: builds a one-dimensional integer
/// tensor holding exactly the given token ids, on the given device.
#[verifier::external_body]
pub(crate) fn tensor_from_tokens(
    tokens: &[u32],
    device: &candle_core::Device,
) -> (r: Result<candle_core::Tensor, candle_core::Error>)
    ensures
        r matches Ok(t) ==> spec_token_cells(t) == tokens@,
{
    candle_core::Tensor::new(tokens, device)
}

/// Relies on candle_core::Tensor::unsqueeze: inserts a leading batch
/// dimension of size one, leaving the cells untouched.
#[verifier::external_body]
pub(crate) fn tensor_unsqueeze_front(
    tensor: &candle_core::Tensor,
) -> (r: Result<candle_core::Tensor, candle_core::Error>)
    ensures
        r matches Ok(t) ==> spec_token_cells(t) == spec_token_cells(*tensor),
{
    tensor.unsqueeze(0)
}

/// Relies on candle_core::Tensor::squeeze: removes a leading dimension of
/// size one.
#[verifier::external_body]
pub(crate) fn tensor_squeeze_front(
    tensor: &candle_core::Tensor,
) -> Result<candle_core::Tensor, candle_core::Error> {
    tensor.squeeze(0)
}

/// Relies on candle_core::Tensor::to_dtype: converts the scores to
/// single-precision, the element type the sampler and the penalty transform
/// expect.
#[verifier::external_body]
pub(crate) fn tensor_to_score_dtype(
    tensor: &candle_core::Tensor,
) -> Result<candle_core::Tensor, candle_core::Error> {
    tensor.to_dtype(candle_core::DType::F32)
}

/// Relies on candle_transformers::utils::apply_repeat_penalty: scales the
/// score of every token id occurring in `context`, dividing non-negative
/// scores by the penalty and multiplying negative ones — a function of the
/// scores, the penalty and the context alone, named `spec_penalized`. The
/// penalty arrives as the bit pattern of a single-precision value.
#[verifier::external_body]
pub(crate) fn tensor_apply_repeat_penalty(
    logits: &candle_core::Tensor,
    penalty_bits: u32,
    context: &[u32],
) -> (r: Result<candle_core::Tensor, candle_core::Error>)
    ensures
        r matches Ok(t) ==> spec_score_cells(t) == spec_penalized(
            spec_score_cells(*logits),
            penalty_bits,
            context@,
        ),
{
    candle_transformers::utils::apply_repeat_penalty(
        logits,
        bytemuck::cast(penalty_bits),
        context,
    )
}

/// Whether a sampler's draws depend only on its own state and the scores:
/// true of every sampler this engine builds. (The one strategy whose draws
/// reach outside the sampler — Gumbel-softmax noise from the device — is
/// never resolved by this engine's configurations.)
pub uninterp spec fn spec_processor_deterministic(
    p: candle_transformers::generation::LogitsProcessor,
) -> bool;

/// What a successful draw yields for a deterministic sampler on given score
/// cells: the sampled token id and the advanced sampler state — a function
/// of the sampler value and the cells alone, so identical seed, strategy and
/// score sequence reproduce identical tokens.
pub uninterp spec fn spec_sample(
    p: candle_transformers::generation::LogitsProcessor,
    scores: Seq<u32>,
) -> (u32, candle_transformers::generation::LogitsProcessor);

/// Relies on candle_transformers::generation::LogitsProcessor::sample: draws
/// one token id from the scores under the processor's sampling strategy,
/// advancing its pseudo-random state. For a sampler whose draws depend only
/// on its own state, a successful draw and the state after it are exactly
/// what `spec_sample` says of the old state and the score cells.
pub assume_specification[ candle_transformers::generation::LogitsProcessor::sample ](
    processor: &mut candle_transformers::generation::LogitsProcessor,
    logits: &candle_core::Tensor,
) -> (r: Result<u32, candle_core::Error>)
    ensures
        spec_processor_deterministic(*old(processor)) ==> (r matches Ok(t) ==> ({
            let draw = spec_sample(*old(processor), spec_score_cells(*logits));
            t == draw.0 && *final(processor) == draw.1
        })),
;

/// Converts a runtime failure into the engine's error type; the loop calls
/// this so that its contracts can name the variant exactly.
pub(crate) fn candle_error(e: candle_core::Error) -> (r: EngineError)
    ensures
        r == EngineError::Candle(e),
{
    EngineError::Candle(e)
}

} // verus!
