//! A table-driven token decoder.
//!
//! Each token id indexes a vocabulary of text entries; the decode of a token
//! sequence is the concatenation of its entries, ids outside the table
//! contributing nothing. Decoding never fails, distributes over
//! concatenation of token sequences — so the streaming round-trip law holds
//! of it unconditionally — and token lookup returns the first matching
//! entry.

use vstd::prelude::*;

use crate::error::EngineError;
use crate::stream::TokenDecoder;
use crate::stream::spec_concatenative;

verus! {

/// The text one token contributes: its vocabulary entry, or nothing for an
/// id outside the table.
pub open spec fn spec_vocab_entry(vocab: Seq<String>, token: u32) -> Seq<char> {
    if token < vocab.len() {
        vocab[token as int]@
    } else {
        Seq::empty()
    }
}

/// The concatenation of the entries of a token sequence.
pub open spec fn spec_vocab_decoded(vocab: Seq<String>, tokens: Seq<u32>) -> Seq<char>
    decreases tokens.len(),
{
    if tokens.len() == 0 {
        Seq::empty()
    } else {
        spec_vocab_decoded(vocab, tokens.drop_last()) + spec_vocab_entry(vocab, tokens.last())
    }
}

/// The first index at or after `from` whose entry reads as `text`, as a
/// token id; indexes beyond the id range are never reported.
pub open spec fn spec_vocab_token_of(vocab: Seq<String>, text: Seq<char>, from: int) -> Option<
    u32,
>
    decreases vocab.len() - from,
{
    if from < 0 || from >= vocab.len() {
        Option::None
    } else if vocab[from]@ == text {
        if from <= u32::MAX as int {
            Option::Some(from as u32)
        } else {
            Option::None
        }
    } else {
        spec_vocab_token_of(vocab, text, from + 1)
    }
}

/// A decoder backed by a vocabulary table.
pub struct VocabDecoder {
    vocab: Vec<String>,
}

impl VocabDecoder {
    /// The table, as a sequence of entries.
    pub closed spec fn spec_vocab(&self) -> Seq<String> {
        self.vocab@
    }

    /// A decoder over the given table; token id `i` decodes to `vocab[i]`.
    pub fn new(vocab: Vec<String>) -> (r: VocabDecoder)
        ensures
            r.spec_vocab() == vocab@,
    {
        VocabDecoder { vocab }
    }
}

/// Splitting a token sequence splits its decode: the vocabulary decoder is
/// concatenative, so the streaming round-trip law holds of it on every
/// history.
pub proof fn lemma_vocab_decoded_splits(vocab: Seq<String>, a: Seq<u32>, b: Seq<u32>)
    ensures
        spec_vocab_decoded(vocab, a + b) == spec_vocab_decoded(vocab, a) + spec_vocab_decoded(
            vocab,
            b,
        ),
    decreases b.len(),
{
    if b.len() == 0 {
        assert(a + b =~= a);
        assert(spec_vocab_decoded(vocab, a) + spec_vocab_decoded(vocab, b)
            =~= spec_vocab_decoded(vocab, a));
    } else {
        lemma_vocab_decoded_splits(vocab, a, b.drop_last());
        assert((a + b).drop_last() =~= a + b.drop_last());
        assert((a + b).last() == b.last());
        assert(spec_vocab_decoded(vocab, a) + (spec_vocab_decoded(vocab, b.drop_last())
            + spec_vocab_entry(vocab, b.last())) =~= (spec_vocab_decoded(vocab, a)
            + spec_vocab_decoded(vocab, b.drop_last())) + spec_vocab_entry(vocab, b.last()));
    }
}

/// Every vocabulary decoder is concatenative.
pub proof fn lemma_vocab_decoder_concatenative(d: VocabDecoder)
    ensures
        spec_concatenative(d),
{
    assert forall|a: Seq<u32>, b: Seq<u32>| #[trigger] d.decoded(a + b) == d.decoded(a)
        + d.decoded(b) by {
        lemma_vocab_decoded_splits(d.spec_vocab(), a, b);
    }
}

impl TokenDecoder for VocabDecoder {
    open spec fn decoded(&self, tokens: Seq<u32>) -> Seq<char> {
        spec_vocab_decoded(self.spec_vocab(), tokens)
    }

    open spec fn token_of(&self, text: Seq<char>) -> Option<u32> {
        spec_vocab_token_of(self.spec_vocab(), text, 0)
    }

    fn decode(&self, tokens: &[u32]) -> (r: Result<String, EngineError>)
        ensures
            r matches Ok(text) && text@ == self.decoded(tokens@),
    {
        let mut out = String::new();
        let n = tokens.len();
        let mut i: usize = 0;
        while i < n
            invariant
                n == tokens@.len(),
                i <= n,
                out@ == spec_vocab_decoded(self.vocab@, tokens@.take(i as int)),
            decreases n - i,
        {
            let token = *vstd::slice::slice_index_get(tokens, i);
            if (token as usize) < self.vocab.len() {
                out.append(self.vocab[token as usize].as_str());
            }
            proof {
                let taken = tokens@.take(i + 1);
                assert(taken.drop_last() =~= tokens@.take(i as int));
                assert(taken.last() == tokens@[i as int]);
            }
            i = i + 1;
        }
        proof {
            assert(tokens@.take(n as int) =~= tokens@);
        }
        Ok(out)
    }

    fn token_id(&self, text: &str) -> (r: Option<u32>)
        ensures
            r == self.token_of(text@),
    {
        let target: String = text.to_owned();
        let n = self.vocab.len();
        let mut i: usize = 0;
        while i < n
            invariant
                n == self.vocab@.len(),
                i <= n,
                target@ == text@,
                spec_vocab_token_of(self.vocab@, text@, 0) == spec_vocab_token_of(
                    self.vocab@,
                    text@,
                    i as int,
                ),
            decreases n - i,
        {
            if self.vocab[i].eq(&target) {
                if i <= u32::MAX as usize {
                    return Some(i as u32);
                } else {
                    return None;
                }
            }
            proof {
                assert(spec_vocab_token_of(self.vocab@, text@, i as int)
                    == spec_vocab_token_of(self.vocab@, text@, i + 1));
            }
            i = i + 1;
        }
        None
    }
}

} // verus!
