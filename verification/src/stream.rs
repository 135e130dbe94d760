//! The streaming detokenizer.
//!
//! A `TextOutputStream` turns a growing token history into stable text
//! fragments: each `next_token` call decodes the pending window once more
//! and flushes only when the text grew — measured in UTF-8 bytes, as the
//! emitted fragment is the new text with the old text's byte length removed
//! from the front — and ends in an alphanumeric character, so that no
//! emitted fragment splits a character or contradicts a later decode;
//! `decode_rest` flushes what is still pending when the stream ends.
//!
//! The stream is generic over a `TokenDecoder`, the tokenizer capability of
//! this engine. The round-trip law — the concatenation of every emitted
//! fragment and the final rest equals the decode of the whole history,
//! byte for byte — is proved for every decoder whose decode distributes
//! over concatenation of token sequences (`spec_concatenative`); the ghost
//! `delivered` byte sequence carries the emitted text through the proof.

use vstd::prelude::*;

use crate::error::EngineError;
use vstd::slice::slice_subrange;
use vstd::utf8::encode_utf8;
use vstd::utf8::is_char_boundary;

verus! {

/// Whether a character is alphanumeric: a Unicode property of the character
/// alone, named here and supplied by the standard library.
pub uninterp spec fn spec_alphanumeric(c: char) -> bool;

/// Relies on char::is_alphanumeric: a pure Unicode classification of the
/// character alone.
#[verifier::external_body]
fn char_is_alphanumeric(c: char) -> (r: bool)
    ensures
        r == spec_alphanumeric(c),
{
    c.is_alphanumeric()
}

/// The tokenizer capability the stream consumes: a decoder assigns text to
/// token sequences, and may know token ids by their text.
pub trait TokenDecoder: Sized {
    /// The text this decoder assigns to a token sequence.
    spec fn decoded(&self, tokens: Seq<u32>) -> Seq<char>;

    /// The token id this decoder assigns to a piece of text, if any.
    spec fn token_of(&self, text: Seq<char>) -> Option<u32>;

    /// Decodes a token slice into text.
    fn decode(&self, tokens: &[u32]) -> (r: Result<String, EngineError>)
        ensures
            r matches Ok(text) ==> text@ == self.decoded(tokens@),
    ;

    /// Looks the token id of a piece of text up.
    fn token_id(&self, text: &str) -> (r: Option<u32>)
        ensures
            r == self.token_of(text@),
    ;
}

/// Whether a decoder's text distributes over concatenation of token
/// sequences. Real subword tokenizers satisfy this away from unstable
/// character boundaries; the round-trip law below is stated for decoders
/// that satisfy it outright.
pub open spec fn spec_concatenative<T: TokenDecoder>(d: T) -> bool {
    forall|a: Seq<u32>, b: Seq<u32>| #[trigger] d.decoded(a + b) == d.decoded(a) + d.decoded(b)
}

/// A concatenative decoder assigns empty text to the empty token sequence.
pub proof fn lemma_concatenative_empty<T: TokenDecoder>(d: T)
    requires
        spec_concatenative(d),
    ensures
        d.decoded(Seq::<u32>::empty()) == Seq::<char>::empty(),
{
    let e = Seq::<u32>::empty();
    assert(e + e =~= e);
    assert(d.decoded(e + e) == d.decoded(e) + d.decoded(e));
    assert(d.decoded(e) =~= Seq::<char>::empty());
}

/// Dropping the left operand's length from a concatenation leaves the right
/// operand.
proof fn lemma_append_skip<A>(a: Seq<A>, b: Seq<A>)
    ensures
        (a + b).skip(a.len() as int) == b,
{
    assert((a + b).skip(a.len() as int) =~= b);
}

/// The UTF-8 encoding of concatenated texts is the concatenation of their
/// encodings.
proof fn lemma_encode_utf8_concat(a: Seq<char>, b: Seq<char>)
    ensures
        encode_utf8(a + b) == encode_utf8(a) + encode_utf8(b),
    decreases a.len(),
{
    if a.len() == 0 {
        assert(a + b =~= b);
        assert(encode_utf8(a) =~= Seq::<u8>::empty());
        assert(encode_utf8(a) + encode_utf8(b) =~= encode_utf8(b));
    } else {
        lemma_encode_utf8_concat(a.drop_first(), b);
        assert((a + b).drop_first() =~= a.drop_first() + b);
        assert((a + b)[0] == a[0]);
        assert(vstd::utf8::encode_scalar(a[0] as u32) + (encode_utf8(a.drop_first())
            + encode_utf8(b)) =~= (vstd::utf8::encode_scalar(a[0] as u32) + encode_utf8(
            a.drop_first(),
        )) + encode_utf8(b));
    }
}

/// A non-empty text encodes to at least one byte.
proof fn lemma_encode_utf8_nonempty(s: Seq<char>)
    ensures
        s.len() > 0 ==> encode_utf8(s).len() > 0,
{
    if s.len() > 0 {
        vstd::utf8::encode_utf8_first_scalar(s);
    }
}

/// The seam of two encoded texts is a character boundary of the
/// concatenation.
proof fn lemma_encoded_concat_boundary(a: Seq<char>, b: Seq<char>)
    ensures
        is_char_boundary(encode_utf8(a) + encode_utf8(b), encode_utf8(a).len() as int),
{
    broadcast use vstd::utf8::encode_utf8_valid_utf8;
    broadcast use vstd::utf8::valid_utf8_concat;
    broadcast use vstd::utf8::is_char_boundary_start_end_of_seq;

    let bytes = encode_utf8(a) + encode_utf8(b);
    if b.len() == 0 {
        assert(encode_utf8(b) =~= Seq::<u8>::empty());
        assert(bytes =~= encode_utf8(a));
        assert(is_char_boundary(encode_utf8(a), encode_utf8(a).len() as int));
    } else {
        vstd::utf8::encode_utf8_first_scalar(b);
        assert(bytes[encode_utf8(a).len() as int] == encode_utf8(b)[0]);
        vstd::utf8::is_char_boundary_iff_is_leading_byte(bytes, encode_utf8(a).len() as int);
    }
}

/// An incremental token-to-text converter. `prev_index` marks the boundary
/// before which text has already been delivered, `current_index` the
/// boundary of the last attempted decode; both only ever grow, and
/// `prev_index <= current_index <= tokens.len()` always holds.
pub struct TextOutputStream<T: TokenDecoder> {
    tokenizer: T,
    tokens: Vec<u32>,
    prev_index: usize,
    current_index: usize,
    delivered: Ghost<Seq<u8>>,
}

impl<T: TokenDecoder> TextOutputStream<T> {
    /// The decoder this stream consumes.
    pub closed spec fn decoder(&self) -> T {
        self.tokenizer
    }

    /// The full token history pushed so far.
    pub closed spec fn spec_tokens(&self) -> Seq<u32> {
        self.tokens@
    }

    /// The boundary before which text has been delivered.
    pub closed spec fn spec_prev_index(&self) -> int {
        self.prev_index as int
    }

    /// The boundary of the last attempted decode.
    pub closed spec fn spec_current_index(&self) -> int {
        self.current_index as int
    }

    /// Every byte this stream has handed out, in order.
    pub closed spec fn spec_delivered(&self) -> Seq<u8> {
        self.delivered@
    }

    /// The indices stay within the history.
    pub open spec fn wf(&self) -> bool {
        0 <= self.spec_prev_index() <= self.spec_current_index()
            <= self.spec_tokens().len()
    }

    /// The text decoded for the already-attempted part of the pending
    /// window; empty when no token has been pushed, exactly as the decoder
    /// is then never consulted.
    pub open spec fn spec_pending_prev(&self) -> Seq<char> {
        if self.spec_tokens().len() == 0 {
            Seq::empty()
        } else {
            self.decoder().decoded(
                self.spec_tokens().subrange(
                    self.spec_prev_index(),
                    self.spec_current_index(),
                ),
            )
        }
    }

    /// The delivered bytes account for everything before the pending
    /// window's attempted boundary: for a concatenative decoder this is the
    /// stream's running invariant, established by `new` and `clear` and kept
    /// by every `next_token`, and it is what `decode_rest`'s round-trip
    /// clause consumes.
    pub open spec fn account(&self) -> bool {
        self.spec_delivered() == encode_utf8(
            self.decoder().decoded(self.spec_tokens().take(self.spec_prev_index())),
        ) + encode_utf8(
            self.decoder().decoded(
                self.spec_tokens().subrange(
                    self.spec_prev_index(),
                    self.spec_current_index(),
                ),
            ),
        )
    }

    /// A fresh stream around a decoder: empty history, both boundaries at
    /// zero, nothing delivered.
    pub fn new(tokenizer: T) -> (r: TextOutputStream<T>)
        ensures
            r.wf(),
            r.decoder() == tokenizer,
            r.spec_tokens() == Seq::<u32>::empty(),
            r.spec_prev_index() == 0,
            r.spec_current_index() == 0,
            r.spec_delivered() == Seq::<u8>::empty(),
            spec_concatenative(tokenizer) ==> r.account(),
    {
        let r = TextOutputStream {
            tokenizer,
            tokens: Vec::new(),
            prev_index: 0,
            current_index: 0,
            delivered: Ghost(Seq::empty()),
        };
        proof {
            if spec_concatenative(r.decoder()) {
                lemma_concatenative_empty(r.decoder());
                assert(r.spec_tokens().take(0) =~= Seq::<u32>::empty());
                assert(r.spec_tokens().subrange(0, 0) =~= Seq::<u32>::empty());
                assert(encode_utf8(Seq::<char>::empty()) =~= Seq::<u8>::empty());
            }
        }
        r
    }

    /// The decoder, borrowed.
    pub fn tokenizer(&self) -> (r: &T)
        ensures
            *r == self.decoder(),
    {
        &self.tokenizer
    }

    /// Hands the decoder back, dropping the stream state.
    pub fn into_inner(self) -> (r: T)
        ensures
            r == self.decoder(),
    {
        self.tokenizer
    }

    /// Decodes an arbitrary token slice with this stream's decoder.
    pub fn decode(&self, tokens: &[u32]) -> (r: Result<String, EngineError>)
        ensures
            r matches Ok(text) ==> text@ == self.decoder().decoded(tokens@),
    {
        self.tokenizer.decode(tokens)
    }

    /// Pushes one token and returns the text that became stable, if any.
    ///
    /// The pending window is decoded before and after the push; the new
    /// text is flushed exactly when it is longer in UTF-8 bytes than the
    /// old, its last character is alphanumeric, and the old text's byte
    /// length falls on a character boundary of the new (which the decode
    /// monotonicity of real tokenizers grants); the fragment is then the
    /// new text with the old text's byte length removed from the front and
    /// the window advances. A decoder failure is handed through with the
    /// boundaries and the delivered bytes untouched.
    pub fn next_token(&mut self, token: u32) -> (r: Result<Option<String>, EngineError>)
        requires
            old(self).wf(),
        ensures
            final(self).wf(),
            final(self).decoder() == old(self).decoder(),
            r matches Err(_) ==> (final(self).spec_prev_index() == old(self).spec_prev_index()
                && final(self).spec_current_index() == old(self).spec_current_index()
                && final(self).spec_delivered() == old(self).spec_delivered()
                && (final(self).spec_tokens() == old(self).spec_tokens() || final(self).spec_tokens() == old(self).spec_tokens().push(token))),
            r matches Ok(o) ==> final(self).spec_tokens() == old(self).spec_tokens().push(
                token,
            ),
            r matches Ok(o) ==> {
                let text = old(self).decoder().decoded(
                    old(self).spec_tokens().push(token).skip(old(self).spec_prev_index()),
                );
                let prev = old(self).spec_pending_prev();
                (o is Some <==> (encode_utf8(text).len() > encode_utf8(prev).len()
                    && spec_alphanumeric(text[text.len() - 1]) && is_char_boundary(
                    encode_utf8(text),
                    encode_utf8(prev).len() as int,
                )))
            },
            r matches Ok(Some(s)) ==> {
                let text = old(self).decoder().decoded(
                    old(self).spec_tokens().push(token).skip(old(self).spec_prev_index()),
                );
                let prev = old(self).spec_pending_prev();
                (encode_utf8(s@) == encode_utf8(text).skip(encode_utf8(prev).len() as int)
                    && final(self).spec_prev_index() == old(self).spec_current_index()
                    && final(self).spec_current_index() == old(self).spec_tokens().len() + 1
                    && final(self).spec_delivered() == old(self).spec_delivered()
                    + encode_utf8(s@))
            },
            r matches Ok(None) ==> (final(self).spec_prev_index() == old(self).spec_prev_index() && final(self).spec_current_index() == old(self).spec_current_index() && final(self).spec_delivered() == old(self).spec_delivered()),
            (spec_concatenative(old(self).decoder()) && old(self).account()) ==> final(self).account(),
    {
        let ghost pre = *old(self);

        let prev_text = if self.tokens.is_empty() {
            String::new()
        } else {
            let window = slice_subrange(
                self.tokens.as_slice(),
                self.prev_index,
                self.current_index,
            );
            match self.tokenizer.decode(window) {
                Ok(t) => t,
                Err(e) => {
                    proof {
                        lemma_account_stable(pre, *self, token);
                    }
                    return Err(e);
                },
            }
        };

        self.tokens.push(token);

        let text = {
            let window = slice_subrange(
                self.tokens.as_slice(),
                self.prev_index,
                self.tokens.len(),
            );
            match self.tokenizer.decode(window) {
                Ok(t) => t,
                Err(e) => {
                    proof {
                        lemma_account_stable(pre, *self, token);
                    }
                    return Err(e);
                },
            }
        };

        proof {
            assert(self.spec_tokens().subrange(
                self.spec_prev_index(),
                self.spec_tokens().len() as int,
            ) =~= pre.spec_tokens().push(token).skip(pre.spec_prev_index()));
            if pre.spec_tokens().len() > 0 {
                assert(pre.spec_tokens().subrange(
                    pre.spec_prev_index(),
                    pre.spec_current_index(),
                ) =~= self.spec_tokens().subrange(
                    pre.spec_prev_index(),
                    pre.spec_current_index(),
                ));
            }
            assert(text@ == pre.decoder().decoded(
                pre.spec_tokens().push(token).skip(pre.spec_prev_index()),
            ));
            assert(prev_text@ == pre.spec_pending_prev());
        }

        let text_str = text.as_str();
        let prev_str = prev_text.as_str();
        let text_len = text_str.as_bytes().len();
        let prev_len = prev_str.as_bytes().len();
        proof {
            assert(text_len == encode_utf8(text@).len());
            assert(prev_len == encode_utf8(prev_text@).len());
        }
        if text_len > prev_len {
            proof {
                // A byte-longer text is non-empty, so it has a last character.
                if text@.len() == 0 {
                    assert(encode_utf8(text@) =~= Seq::<u8>::empty());
                }
            }
            let char_count = text_str.unicode_len();
            if char_is_alphanumeric(text_str.get_char(char_count - 1))
                && text_str.is_char_boundary(prev_len) {
                let parts = text_str.split_at(prev_len);
                let fragment = parts.1.to_owned();
                self.prev_index = self.current_index;
                self.current_index = self.tokens.len();
                self.delivered = Ghost(self.delivered@ + encode_utf8(fragment@));
                proof {
                    assert(encode_utf8(fragment@) =~= encode_utf8(text@).skip(
                        prev_len as int,
                    ));
                    if spec_concatenative(pre.decoder()) && pre.account() {
                        lemma_account_flush(pre, *self, token, encode_utf8(fragment@));
                    }
                }
                Ok(Some(fragment))
            } else {
                proof {
                    lemma_account_stable(pre, *self, token);
                }
                Ok(None)
            }
        } else {
            proof {
                lemma_account_stable(pre, *self, token);
            }
            Ok(None)
        }
    }

    /// Flushes whatever is still pending, without the alphanumeric-ending
    /// heuristic and without moving the boundaries: the closing call of a
    /// stream. For a concatenative decoder whose stream satisfies
    /// `account`, the delivered bytes followed by this rest equal the
    /// decode of the whole history, byte for byte — the round-trip law.
    pub fn decode_rest(&self) -> (r: Result<Option<String>, EngineError>)
        requires
            self.wf(),
        ensures
            r matches Ok(o) ==> {
                let text = self.decoder().decoded(
                    self.spec_tokens().skip(self.spec_prev_index()),
                );
                let prev = self.spec_pending_prev();
                (o is Some <==> (encode_utf8(text).len() > encode_utf8(prev).len()
                    && is_char_boundary(encode_utf8(text), encode_utf8(prev).len() as int)))
            },
            r matches Ok(Some(s)) ==> {
                let text = self.decoder().decoded(
                    self.spec_tokens().skip(self.spec_prev_index()),
                );
                let prev = self.spec_pending_prev();
                encode_utf8(s@) == encode_utf8(text).skip(encode_utf8(prev).len() as int)
            },
            r matches Ok(o) ==> ((spec_concatenative(self.decoder()) && self.account())
                ==> self.spec_delivered() + (match o {
                Option::Some(s) => encode_utf8(s@),
                Option::None => Seq::<u8>::empty(),
            }) == encode_utf8(self.decoder().decoded(self.spec_tokens()))),
    {
        let prev_text = if self.tokens.is_empty() {
            String::new()
        } else {
            let window = slice_subrange(
                self.tokens.as_slice(),
                self.prev_index,
                self.current_index,
            );
            match self.tokenizer.decode(window) {
                Ok(t) => t,
                Err(e) => {
                    return Err(e);
                },
            }
        };

        let text = {
            let window = slice_subrange(
                self.tokens.as_slice(),
                self.prev_index,
                self.tokens.len(),
            );
            match self.tokenizer.decode(window) {
                Ok(t) => t,
                Err(e) => {
                    return Err(e);
                },
            }
        };

        proof {
            assert(self.spec_tokens().subrange(
                self.spec_prev_index(),
                self.spec_tokens().len() as int,
            ) =~= self.spec_tokens().skip(self.spec_prev_index()));
            assert(text@ == self.decoder().decoded(
                self.spec_tokens().skip(self.spec_prev_index()),
            ));
            assert(prev_text@ == self.spec_pending_prev());
        }

        let text_str = text.as_str();
        let prev_str = prev_text.as_str();
        let text_len = text_str.as_bytes().len();
        let prev_len = prev_str.as_bytes().len();
        proof {
            assert(text_len == encode_utf8(text@).len());
            assert(prev_len == encode_utf8(prev_text@).len());
        }
        if text_len > prev_len && text_str.is_char_boundary(prev_len) {
            let parts = text_str.split_at(prev_len);
            let fragment = parts.1.to_owned();
            proof {
                assert(encode_utf8(fragment@) =~= encode_utf8(text@).skip(prev_len as int));
                if spec_concatenative(self.decoder()) && self.account() {
                    lemma_round_trip(*self, encode_utf8(fragment@));
                }
            }
            Ok(Some(fragment))
        } else {
            proof {
                if spec_concatenative(self.decoder()) && self.account() {
                    lemma_pending_boundary(*self);
                    lemma_round_trip_nothing_pending(*self, encode_utf8(text@).len() as int);
                }
            }
            Ok(None)
        }
    }

    /// Decodes the whole history at once; the reference value of the
    /// round-trip law.
    pub fn decode_all(&self) -> (r: Result<String, EngineError>)
        ensures
            r matches Ok(text) ==> text@ == self.decoder().decoded(self.spec_tokens()),
    {
        self.tokenizer.decode(self.tokens.as_slice())
    }

    /// The token id the decoder assigns to a piece of text, if any.
    pub fn get_token(&self, token_s: &str) -> (r: Option<u32>)
        ensures
            r == self.decoder().token_of(token_s@),
    {
        self.tokenizer.token_id(token_s)
    }

    /// Forgets the history and the boundaries, keeping the decoder: the
    /// state of a fresh stream.
    pub fn clear(&mut self)
        ensures
            final(self).wf(),
            final(self).decoder() == old(self).decoder(),
            final(self).spec_tokens() == Seq::<u32>::empty(),
            final(self).spec_prev_index() == 0,
            final(self).spec_current_index() == 0,
            final(self).spec_delivered() == Seq::<u8>::empty(),
            spec_concatenative(old(self).decoder()) ==> final(self).account(),
    {
        self.tokens.clear();
        self.prev_index = 0;
        self.current_index = 0;
        self.delivered = Ghost(Seq::empty());
        proof {
            if spec_concatenative(self.decoder()) {
                lemma_concatenative_empty(self.decoder());
                assert(self.spec_tokens().take(0) =~= Seq::<u32>::empty());
                assert(self.spec_tokens().subrange(0, 0) =~= Seq::<u32>::empty());
                assert(encode_utf8(Seq::<char>::empty()) =~= Seq::<u8>::empty());
            }
        }
    }
}

/// A step that leaves the boundaries and the delivered bytes alone keeps the
/// account, whether or not the token reached the history.
proof fn lemma_account_stable<T: TokenDecoder>(
    pre: TextOutputStream<T>,
    post: TextOutputStream<T>,
    token: u32,
)
    requires
        pre.wf(),
        post.decoder() == pre.decoder(),
        post.spec_prev_index() == pre.spec_prev_index(),
        post.spec_current_index() == pre.spec_current_index(),
        post.spec_delivered() == pre.spec_delivered(),
        post.spec_tokens() == pre.spec_tokens() || post.spec_tokens() == pre.spec_tokens().push(
            token,
        ),
    ensures
        pre.account() ==> post.account(),
{
    assert(post.spec_tokens().take(post.spec_prev_index()) =~= pre.spec_tokens().take(
        pre.spec_prev_index(),
    ));
    assert(post.spec_tokens().subrange(
        post.spec_prev_index(),
        post.spec_current_index(),
    ) =~= pre.spec_tokens().subrange(pre.spec_prev_index(), pre.spec_current_index()));
}

/// A flush keeps the account: the emitted fragment is, in bytes, exactly
/// the decode of the tokens between the old attempted boundary and the new
/// history end.
proof fn lemma_account_flush<T: TokenDecoder>(
    pre: TextOutputStream<T>,
    post: TextOutputStream<T>,
    token: u32,
    fragment: Seq<u8>,
)
    requires
        pre.wf(),
        spec_concatenative(pre.decoder()),
        pre.account(),
        post.decoder() == pre.decoder(),
        post.spec_tokens() == pre.spec_tokens().push(token),
        post.spec_prev_index() == pre.spec_current_index(),
        post.spec_current_index() == post.spec_tokens().len(),
        fragment == encode_utf8(
            pre.decoder().decoded(post.spec_tokens().skip(pre.spec_prev_index())),
        ).skip(encode_utf8(pre.spec_pending_prev()).len() as int),
        post.spec_delivered() == pre.spec_delivered() + fragment,
    ensures
        post.account(),
{
    let d = pre.decoder();
    let t1 = post.spec_tokens();
    let p = pre.spec_prev_index();
    let c = pre.spec_current_index();
    let n1 = t1.len() as int;

    let head = t1.subrange(p, c);
    let tail = t1.subrange(c, n1);

    // The freshly decoded window splits at the old attempted boundary.
    assert(t1.skip(p) =~= head + tail);
    assert(d.decoded(head + tail) == d.decoded(head) + d.decoded(tail));
    lemma_encode_utf8_concat(d.decoded(head), d.decoded(tail));

    // The old window text is the decode of the head, also when the history
    // was empty (then the head is empty too).
    if pre.spec_tokens().len() == 0 {
        lemma_concatenative_empty(d);
        assert(head =~= Seq::<u32>::empty());
    } else {
        assert(head =~= pre.spec_tokens().subrange(p, c));
    }
    assert(pre.spec_pending_prev() == d.decoded(head));

    // So the fragment is, in bytes, exactly the decode of the tail.
    lemma_append_skip(encode_utf8(d.decoded(head)), encode_utf8(d.decoded(tail)));
    assert(fragment == encode_utf8(d.decoded(tail)));

    // The delivered bytes up to the old boundary collapse to one decode.
    assert(t1.take(c) =~= pre.spec_tokens().take(p) + pre.spec_tokens().subrange(p, c));
    assert(d.decoded(pre.spec_tokens().take(p) + pre.spec_tokens().subrange(p, c))
        == d.decoded(pre.spec_tokens().take(p)) + d.decoded(
        pre.spec_tokens().subrange(p, c),
    ));
    lemma_encode_utf8_concat(
        d.decoded(pre.spec_tokens().take(p)),
        d.decoded(pre.spec_tokens().subrange(p, c)),
    );
    if pre.spec_tokens().len() == 0 {
        assert(pre.spec_tokens().take(p) =~= Seq::<u32>::empty());
        assert(pre.spec_tokens().subrange(p, c) =~= Seq::<u32>::empty());
    }

    assert(post.spec_delivered() == encode_utf8(d.decoded(t1.take(c))) + encode_utf8(
        d.decoded(tail),
    ));
    assert(post.spec_tokens().take(post.spec_prev_index()) == t1.take(c));
    assert(post.spec_tokens().subrange(post.spec_prev_index(), post.spec_current_index())
        =~= tail);
}

/// The round-trip law, flushing case: the delivered bytes followed by the
/// final fragment equal the decode of the whole history.
pub proof fn lemma_round_trip<T: TokenDecoder>(s: TextOutputStream<T>, fragment: Seq<u8>)
    requires
        s.wf(),
        spec_concatenative(s.decoder()),
        s.account(),
        fragment == encode_utf8(
            s.decoder().decoded(s.spec_tokens().skip(s.spec_prev_index())),
        ).skip(encode_utf8(s.spec_pending_prev()).len() as int),
    ensures
        s.spec_delivered() + fragment == encode_utf8(
            s.decoder().decoded(s.spec_tokens()),
        ),
{
    let d = s.decoder();
    let t = s.spec_tokens();
    let p = s.spec_prev_index();
    let c = s.spec_current_index();
    let n = t.len() as int;

    let head = t.subrange(p, c);
    let tail = t.subrange(c, n);

    assert(t.skip(p) =~= head + tail);
    assert(d.decoded(head + tail) == d.decoded(head) + d.decoded(tail));
    lemma_encode_utf8_concat(d.decoded(head), d.decoded(tail));

    if t.len() == 0 {
        lemma_concatenative_empty(d);
        assert(head =~= Seq::<u32>::empty());
    }
    assert(s.spec_pending_prev() == d.decoded(head));

    lemma_append_skip(encode_utf8(d.decoded(head)), encode_utf8(d.decoded(tail)));
    assert(fragment == encode_utf8(d.decoded(tail)));

    assert(t.take(c) =~= t.take(p) + head);
    assert(d.decoded(t.take(p) + head) == d.decoded(t.take(p)) + d.decoded(head));
    lemma_encode_utf8_concat(d.decoded(t.take(p)), d.decoded(head));
    assert(s.spec_delivered() + fragment == encode_utf8(d.decoded(t.take(c)))
        + encode_utf8(d.decoded(tail)));

    assert(t =~= t.take(c) + tail);
    assert(d.decoded(t.take(c) + tail) == d.decoded(t.take(c)) + d.decoded(tail));
    lemma_encode_utf8_concat(d.decoded(t.take(c)), d.decoded(tail));
}

/// For a concatenative decoder, the old window text's byte length always
/// falls on a character boundary of the new window text: the seam of the
/// two decodes.
proof fn lemma_pending_boundary<T: TokenDecoder>(s: TextOutputStream<T>)
    requires
        s.wf(),
        spec_concatenative(s.decoder()),
    ensures
        is_char_boundary(
            encode_utf8(s.decoder().decoded(s.spec_tokens().skip(s.spec_prev_index()))),
            encode_utf8(s.spec_pending_prev()).len() as int,
        ),
{
    let d = s.decoder();
    let t = s.spec_tokens();
    let p = s.spec_prev_index();
    let c = s.spec_current_index();
    let n = t.len() as int;

    let head = t.subrange(p, c);
    let tail = t.subrange(c, n);

    assert(t.skip(p) =~= head + tail);
    assert(d.decoded(head + tail) == d.decoded(head) + d.decoded(tail));
    lemma_encode_utf8_concat(d.decoded(head), d.decoded(tail));

    if t.len() == 0 {
        lemma_concatenative_empty(d);
        assert(head =~= Seq::<u32>::empty());
    }
    assert(s.spec_pending_prev() == d.decoded(head));

    lemma_encoded_concat_boundary(d.decoded(head), d.decoded(tail));
}

/// The round-trip law, nothing-pending case: when the pending window's text
/// did not grow in bytes, the delivered bytes alone already equal the
/// decode of the whole history.
pub proof fn lemma_round_trip_nothing_pending<T: TokenDecoder>(
    s: TextOutputStream<T>,
    text_byte_len: int,
)
    requires
        s.wf(),
        spec_concatenative(s.decoder()),
        s.account(),
        text_byte_len == encode_utf8(
            s.decoder().decoded(s.spec_tokens().skip(s.spec_prev_index())),
        ).len(),
        text_byte_len <= encode_utf8(s.spec_pending_prev()).len(),
    ensures
        s.spec_delivered() == encode_utf8(s.decoder().decoded(s.spec_tokens())),
{
    let d = s.decoder();
    let t = s.spec_tokens();
    let p = s.spec_prev_index();
    let c = s.spec_current_index();
    let n = t.len() as int;

    let head = t.subrange(p, c);
    let tail = t.subrange(c, n);

    assert(t.skip(p) =~= head + tail);
    assert(d.decoded(head + tail) == d.decoded(head) + d.decoded(tail));
    lemma_encode_utf8_concat(d.decoded(head), d.decoded(tail));

    if t.len() == 0 {
        lemma_concatenative_empty(d);
        assert(head =~= Seq::<u32>::empty());
    }
    assert(s.spec_pending_prev() == d.decoded(head));

    // The window text is the old text plus the tail's decode; it did not
    // grow in bytes, so the tail decodes to nothing.
    assert(encode_utf8(d.decoded(tail)).len() == 0);
    lemma_encode_utf8_nonempty(d.decoded(tail));
    assert(d.decoded(tail) =~= Seq::<char>::empty());
    assert(encode_utf8(d.decoded(tail)) =~= Seq::<u8>::empty());

    assert(t.take(c) =~= t.take(p) + head);
    assert(d.decoded(t.take(p) + head) == d.decoded(t.take(p)) + d.decoded(head));
    lemma_encode_utf8_concat(d.decoded(t.take(p)), d.decoded(head));
    assert(s.spec_delivered() == encode_utf8(d.decoded(t.take(c))));

    assert(t =~= t.take(c) + tail);
    assert(d.decoded(t.take(c) + tail) == d.decoded(t.take(c)) + d.decoded(tail));
    lemma_encode_utf8_concat(d.decoded(t.take(c)), d.decoded(tail));
    assert(encode_utf8(d.decoded(t)) =~= encode_utf8(d.decoded(t.take(c))));
}

} // verus!
