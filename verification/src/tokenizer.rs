//! The real subword tokenizer as the engine's capabilities.
//!
//! An `HfTokenizer` binds a loaded tokenizer to the decoder interface the
//! streaming detokenizer consumes, and offers encoding for prompt
//! preparation. Decoding and vocabulary lookup are deterministic functions
//! of the tokenizer value and their arguments, and their outcomes are named
//! below. Encoding is not: a tokenizer may be configured with merge dropout,
//! which randomizes the chosen ids, so nothing is claimed of encode's
//! result. Loading a tokenizer from disk is the caller's business.

use vstd::prelude::*;

use crate::error::EngineError;
use crate::stream::TokenDecoder;

verus! {

#[verifier::external_type_specification]
#[verifier::external_body]
pub struct ExHfTokenizer(tokenizers::Tokenizer);

/// What decoding a token sequence yields (special tokens skipped): nothing
/// when the decoder chain fails, the text otherwise — a function of the
/// tokenizer value and the ids alone.
pub uninterp spec fn spec_hf_decoded(t: tokenizers::Tokenizer, tokens: Seq<u32>) -> Option<
    String,
>;

/// The id the tokenizer's vocabulary (added tokens included) assigns to a
/// piece of text, if any.
pub uninterp spec fn spec_hf_token_of(t: tokenizers::Tokenizer, text: Seq<char>) -> Option<
    u32,
>;

/// A tokenizer bound to the engine's capability interface. Wrap it in
/// `crate::stream::TextOutputStream` for incremental decoding.
pub struct HfTokenizer {
    tokenizer: tokenizers::Tokenizer,
}

impl HfTokenizer {
    /// The underlying tokenizer value.
    pub closed spec fn spec_inner(&self) -> tokenizers::Tokenizer {
        self.tokenizer
    }

    /// Binds an already-loaded tokenizer.
    pub fn new(tokenizer: tokenizers::Tokenizer) -> (r: HfTokenizer)
        ensures
            r.spec_inner() == tokenizer,
    {
        HfTokenizer { tokenizer }
    }

    /// The underlying tokenizer, borrowed.
    pub fn tokenizer(&self) -> (r: &tokenizers::Tokenizer)
        ensures
            *r == self.spec_inner(),
    {
        &self.tokenizer
    }

    /// Relies on tokenizers::Tokenizer::encode and Encoding::get_ids: the
    /// ids this text encodes to, with special tokens added. Nothing is
    /// claimed of the result: an encode under a model configured with merge
    /// dropout draws from a thread-local random source, so two encodes of
    /// one text may differ.
    #[verifier::external_body]
    pub fn encode(&self, text: &str) -> Result<Vec<u32>, EngineError> {
        match self.tokenizer.encode(text, true) {
            Ok(encoding) => Ok(encoding.get_ids().to_vec()),
            Err(err) => Err(EngineError::Msg(format!("cannot encode: {err}"))),
        }
    }
}

/// Relies on tokenizers::Tokenizer::decode, skipping special tokens: it
/// succeeds exactly when, and returns exactly what, `spec_hf_decoded` says
/// of the tokenizer value and the ids; a failure is carried through as a
/// message.
#[verifier::external_body]
fn hf_decode(t: &tokenizers::Tokenizer, tokens: &[u32]) -> (r: Result<String, EngineError>)
    ensures
        r is Ok <==> spec_hf_decoded(*t, tokens@) is Some,
        r matches Ok(text) ==> Some(text) == spec_hf_decoded(*t, tokens@),
        r matches Err(e) ==> e is Msg,
{
    match t.decode(tokens, true) {
        Ok(text) => Ok(text),
        Err(err) => Err(EngineError::Msg(format!("cannot decode: {err}"))),
    }
}

/// Relies on tokenizers::Tokenizer::token_to_id: the vocabulary's id for a
/// token text, the value named `spec_hf_token_of`.
#[verifier::external_body]
fn hf_token_to_id(t: &tokenizers::Tokenizer, text: &str) -> (r: Option<u32>)
    ensures
        r == spec_hf_token_of(*t, text@),
{
    t.token_to_id(text)
}

impl TokenDecoder for HfTokenizer {
    /// The decoded text's characters; the empty sequence stands in for a
    /// decode that fails (its `decode` then returns an error, never text).
    open spec fn decoded(&self, tokens: Seq<u32>) -> Seq<char> {
        match spec_hf_decoded(self.spec_inner(), tokens) {
            Option::Some(text) => text@,
            Option::None => Seq::empty(),
        }
    }

    open spec fn token_of(&self, text: Seq<char>) -> Option<u32> {
        spec_hf_token_of(self.spec_inner(), text)
    }

    fn decode(&self, tokens: &[u32]) -> (r: Result<String, EngineError>)
        ensures
            r matches Ok(text) ==> text@ == self.decoded(tokens@),
            r is Ok <==> spec_hf_decoded(self.spec_inner(), tokens@) is Some,
            r matches Err(e) ==> e is Msg,
    {
        hf_decode(&self.tokenizer, tokens)
    }

    fn token_id(&self, text: &str) -> (r: Option<u32>)
        ensures
            r == self.token_of(text@),
    {
        hf_token_to_id(&self.tokenizer, text)
    }
}

} // verus!
