//! Generation configuration and sampling-policy resolution.
//!
//! A `GenerationConfig` carries the optional sampling fields of a generation
//! configuration document; `sampling` resolves it, once per session, to one
//! concrete `Sampling` strategy. Temperature and top-p values are held as the
//! bit patterns of IEEE-754 double-precision values and the repetition
//! penalty as a single-precision pattern (see `crate::ieee`), so resolution
//! is pure integer logic with an exact contract.

use vstd::prelude::*;

use crate::Module;
use crate::candle::candle_error;
use crate::candle::spec_penalized;
use crate::candle::spec_processor_deterministic;
use crate::candle::spec_score_cells;
use crate::candle::spec_token_cells;
use crate::candle::tensor_apply_repeat_penalty;
use crate::candle::tensor_from_tokens;
use crate::candle::tensor_squeeze_front;
use crate::candle::tensor_to_score_dtype;
use crate::candle::tensor_unsqueeze_front;
use crate::error::EngineError;
use crate::ieee::PENALTY_ONE_BITS;
use crate::ieee::spec_temperature_is_negligible;
use crate::ieee::temperature_is_negligible;
use crate::json::SpecJson;
use crate::json::json_as_array;
use crate::json::json_as_object;
use crate::json::json_as_u64;
use crate::json::json_get;
use crate::json::json_number_bits;
use crate::json::json_number_bits_single;
use crate::json::parse_json;
use crate::json::spec_field;
use crate::json::spec_json;
use crate::json::spec_parse;
use candle_transformers::generation::Sampling as RuntimeSampling;
use vstd::slice::slice_subrange;
use vstd::slice::slice_to_vec;

verus! {

/// The `eos_token_id` field of a configuration document: either one token id
/// or a list of them.
#[derive(Debug, Clone)]
pub enum Eos {
    Single(u32),
    Multi(Vec<u32>),
}

/// The end-of-sequence token ids an `Eos` value names, in its own order.
pub open spec fn spec_eos_ids(eos: Eos) -> Seq<u32> {
    match eos {
        Eos::Single(id) => seq![id],
        Eos::Multi(ids) => ids@,
    }
}

/// A parsed generation configuration. Every field is optional; absence means
/// the documented default (no penalty, deterministic sampling, a
/// caller-supplied token budget). `temperature` and `top_p` hold IEEE-754
/// double-precision bit patterns, `repetition_penalty` a single-precision
/// one.
#[derive(Debug, Clone)]
pub struct GenerationConfig {
    pub eos_token_id: Option<Eos>,
    pub temperature: Option<u64>,
    pub repetition_penalty: Option<u32>,
    pub top_p: Option<u64>,
    pub top_k: Option<usize>,
    pub max_new_tokens: Option<usize>,
}

/// One concrete sampling strategy, fixed for the lifetime of a session.
/// `temperature` and `p` fields hold IEEE-754 double-precision bit patterns.
#[derive(Debug, Clone, PartialEq, Eq, Structural)]
pub enum Sampling {
    ArgMax,
    All { temperature: u64 },
    TopK { k: usize, temperature: u64 },
    TopP { p: u64, temperature: u64 },
    TopKThenTopP { k: usize, p: u64, temperature: u64 },
}

/// The strategy a configuration resolves to: deterministic arg-max when the
/// temperature is absent or negligible (below 1e-7); otherwise the variant
/// matching which of `top_k` and `top_p` are present, with top-k restriction
/// applied before top-p truncation when both are.
pub open spec fn spec_sampling(config: GenerationConfig) -> Sampling {
    let temperature = match config.temperature {
        Option::None => Option::<u64>::None,
        Option::Some(bits) => if spec_temperature_is_negligible(bits) {
            Option::None
        } else {
            Option::Some(bits)
        },
    };
    match temperature {
        Option::None => Sampling::ArgMax,
        Option::Some(temperature) => match (config.top_k, config.top_p) {
            (Option::None, Option::None) => Sampling::All { temperature },
            (Option::Some(k), Option::None) => Sampling::TopK { k, temperature },
            (Option::None, Option::Some(p)) => Sampling::TopP { p, temperature },
            (Option::Some(k), Option::Some(p)) => Sampling::TopKThenTopP { k, p, temperature },
        },
    }
}

/// The token id one JSON value yields: an unsigned number that fits a token
/// id, nothing otherwise.
pub open spec fn spec_token_id_of(j: SpecJson) -> Option<u32> {
    match j {
        SpecJson::Num(n) => match n.unsigned {
            Option::Some(u) => if u <= u32::MAX {
                Option::Some(u as u32)
            } else {
                Option::None
            },
            Option::None => Option::None,
        },
        _ => Option::None,
    }
}

/// The end-of-sequence ids an `eos_token_id` field yields: one id for a
/// number, the ids in the array's order for an array of numbers, nothing for
/// anything else.
pub open spec fn spec_eos_field_ids(j: SpecJson) -> Option<Seq<u32>> {
    if spec_token_id_of(j) is Some {
        Option::Some(seq![spec_token_id_of(j)->0])
    } else {
        match j {
            SpecJson::Arr(items) => if forall|i: int|
                0 <= i < items.len() ==> spec_token_id_of(#[trigger] items[i]) is Some {
                Option::Some(Seq::new(items.len(), |i: int| spec_token_id_of(items[i])->0))
            } else {
                Option::None
            },
            _ => Option::None,
        }
    }
}

/// A field read that may be absent: the outer level says whether the field
/// is usable (absent counts as usable), the inner what it holds.
pub open spec fn spec_double_field(doc: SpecJson, key: Seq<char>) -> Option<Option<u64>> {
    match spec_field(doc, key) {
        Option::None => Option::Some(Option::<u64>::None),
        Option::Some(j) => match j {
            SpecJson::Num(n) => Option::Some(Option::Some(n.double_bits)),
            _ => Option::None,
        },
    }
}

/// As `spec_double_field`, for a field kept in single precision.
pub open spec fn spec_single_field(doc: SpecJson, key: Seq<char>) -> Option<Option<u32>> {
    match spec_field(doc, key) {
        Option::None => Option::Some(Option::<u32>::None),
        Option::Some(j) => match j {
            SpecJson::Num(n) => Option::Some(Option::Some(n.single_bits)),
            _ => Option::None,
        },
    }
}

/// As `spec_double_field`, for an unsigned count field.
pub open spec fn spec_usize_field(doc: SpecJson, key: Seq<char>) -> Option<Option<usize>> {
    match spec_field(doc, key) {
        Option::None => Option::Some(Option::<usize>::None),
        Option::Some(j) => match j {
            SpecJson::Num(n) => match n.unsigned {
                Option::Some(u) => if u <= usize::MAX {
                    Option::Some(Option::Some(u as usize))
                } else {
                    Option::None
                },
                Option::None => Option::None,
            },
            _ => Option::None,
        },
    }
}

/// As `spec_double_field`, for the `eos_token_id` field.
pub open spec fn spec_eos_field(doc: SpecJson) -> Option<Option<Seq<u32>>> {
    match spec_field(doc, "eos_token_id"@) {
        Option::None => Option::Some(Option::<Seq<u32>>::None),
        Option::Some(j) => match spec_eos_field_ids(j) {
            Option::Some(ids) => Option::Some(Option::Some(ids)),
            Option::None => Option::None,
        },
    }
}

/// Whether a parsed document reads as a generation configuration: an object
/// whose six optional fields are each absent or usable.
pub open spec fn spec_config_readable(doc: SpecJson) -> bool {
    &&& doc is Obj
    &&& spec_eos_field(doc) is Some
    &&& spec_double_field(doc, "temperature"@) is Some
    &&& spec_single_field(doc, "repetition_penalty"@) is Some
    &&& spec_double_field(doc, "top_p"@) is Some
    &&& spec_usize_field(doc, "top_k"@) is Some
    &&& spec_usize_field(doc, "max_new_tokens"@) is Some
}

/// Reads the `eos_token_id` field of a configuration document: a single
/// JSON number becomes `Eos::Single`, an array of numbers `Eos::Multi` in
/// the array's order; anything else is rejected.
fn parse_eos(value: &serde_json::Value) -> (r: Result<Eos, EngineError>)
    ensures
        r is Ok <==> spec_eos_field_ids(spec_json(*value)) is Some,
        r matches Ok(eos) ==> Some(spec_eos_ids(eos)) == spec_eos_field_ids(
            spec_json(*value),
        ),
        r matches Err(e) ==> e is Msg,
{
    if let Some(n) = json_as_u64(value) {
        if n <= u32::MAX as u64 {
            Ok(Eos::Single(n as u32))
        } else {
            Err(EngineError::Msg("eos_token_id does not fit a token id".to_owned()))
        }
    } else if let Some(items) = json_as_array(value) {
        let ghost a = spec_json(*value)->Arr_0;
        let mut ids: Vec<u32> = Vec::new();
        let mut i: usize = 0;
        while i < items.len()
            invariant
                spec_json(*value) == SpecJson::Arr(a),
                items@.len() == a.len(),
                forall|k: int| 0 <= k < a.len() ==> spec_json(#[trigger] items@[k]) == a[k],
                i <= a.len(),
                ids@.len() == i,
                forall|k: int| 0 <= k < i ==> (spec_token_id_of(#[trigger] a[k]) is Some
                    && ids@[k] == spec_token_id_of(a[k])->0),
            decreases items@.len() - i,
        {
            if let Some(n) = json_as_u64(&items[i]) {
                if n <= u32::MAX as u64 {
                    ids.push(n as u32);
                } else {
                    assert(spec_token_id_of(a[i as int]) is None);
                    return Err(EngineError::Msg(
                        "eos_token_id entry does not fit a token id".to_owned(),
                    ));
                }
            } else {
                assert(spec_token_id_of(a[i as int]) is None);
                return Err(EngineError::Msg(
                    "eos_token_id entry is not a number".to_owned(),
                ));
            }
            i = i + 1;
        }
        proof {
            assert(spec_eos_field_ids(spec_json(*value)) matches Some(s) && s =~= ids@);
        }
        Ok(Eos::Multi(ids))
    } else {
        Err(EngineError::Msg("eos_token_id is not a token id or a list".to_owned()))
    }
}

impl GenerationConfig {
    /// Parses a generation configuration document: an object whose six
    /// fields are all optional; unknown fields are ignored; a field present
    /// with an unusable value is rejected. Number fields are kept as
    /// IEEE-754 bit patterns (single-precision for `repetition_penalty`,
    /// double otherwise). Malformed text fails through `Json` with the
    /// parser's own error; a well-formed document that does not read as a
    /// configuration is deliberately rejected with a message instead, which
    /// names the offending field.
    pub fn from_json_str(text: &str) -> (r: Result<GenerationConfig, EngineError>)
        ensures
            r is Ok <==> (spec_parse(text@) matches Some(doc) && spec_config_readable(doc)),
            r matches Ok(c) ==> ({
                let doc = spec_parse(text@)->0;
                &&& c.temperature == spec_double_field(doc, "temperature"@)->0
                &&& c.repetition_penalty == spec_single_field(doc, "repetition_penalty"@)->0
                &&& c.top_p == spec_double_field(doc, "top_p"@)->0
                &&& c.top_k == spec_usize_field(doc, "top_k"@)->0
                &&& c.max_new_tokens == spec_usize_field(doc, "max_new_tokens"@)->0
                &&& (c.eos_token_id is Some <==> spec_eos_field(doc)->0 is Some)
                &&& (c.eos_token_id matches Some(eos) ==> Some(spec_eos_ids(eos))
                    == spec_eos_field(doc)->0)
            }),
            r matches Err(e) ==> (e is Json <==> spec_parse(text@) is None),
    {
        let root = match parse_json(text) {
            Ok(v) => v,
            Err(e) => {
                return Err(EngineError::Json(e));
            },
        };

        if json_as_object(&root).is_none() {
            return Err(EngineError::Msg("the document is not an object".to_owned()));
        }

        let eos_token_id = match json_get(&root, "eos_token_id") {
            Some(v) => Some(parse_eos(v)?),
            None => None,
        };

        let temperature = match json_get(&root, "temperature") {
            Some(v) => match json_number_bits(v) {
                Some(bits) => Some(bits),
                None => {
                    return Err(EngineError::Msg("temperature is not a number".to_owned()));
                },
            },
            None => None,
        };

        let repetition_penalty = match json_get(&root, "repetition_penalty") {
            Some(v) => match json_number_bits_single(v) {
                Some(bits) => Some(bits),
                None => {
                    return Err(EngineError::Msg(
                        "repetition_penalty is not a number".to_owned(),
                    ));
                },
            },
            None => None,
        };

        let top_p = match json_get(&root, "top_p") {
            Some(v) => match json_number_bits(v) {
                Some(bits) => Some(bits),
                None => {
                    return Err(EngineError::Msg("top_p is not a number".to_owned()));
                },
            },
            None => None,
        };

        let top_k = match json_get(&root, "top_k") {
            Some(v) => match json_as_u64(v) {
                Some(n) => if n <= usize::MAX as u64 {
                    Some(n as usize)
                } else {
                    return Err(EngineError::Msg("top_k does not fit".to_owned()));
                },
                None => {
                    return Err(EngineError::Msg(
                        "top_k is not an unsigned integer".to_owned(),
                    ));
                },
            },
            None => None,
        };

        let max_new_tokens = match json_get(&root, "max_new_tokens") {
            Some(v) => match json_as_u64(v) {
                Some(n) => if n <= usize::MAX as u64 {
                    Some(n as usize)
                } else {
                    return Err(EngineError::Msg("max_new_tokens does not fit".to_owned()));
                },
                None => {
                    return Err(EngineError::Msg(
                        "max_new_tokens is not an unsigned integer".to_owned(),
                    ));
                },
            },
            None => None,
        };

        Ok(GenerationConfig {
            eos_token_id,
            temperature,
            repetition_penalty,
            top_p,
            top_k,
            max_new_tokens,
        })
    }

    pub fn set_eos_token_id(&mut self, eos_token_id: Eos)
        ensures
            *final(self) == (GenerationConfig {
                eos_token_id: Some(eos_token_id),
                ..*old(self)
            }),
    {
        self.eos_token_id = Some(eos_token_id);
    }

    pub fn set_temperature(&mut self, temperature: u64)
        ensures
            *final(self) == (GenerationConfig { temperature: Some(temperature), ..*old(self) }),
    {
        self.temperature = Some(temperature);
    }

    pub fn set_repetition_penalty(&mut self, repetition_penalty: u32)
        ensures
            *final(self) == (GenerationConfig {
                repetition_penalty: Some(repetition_penalty),
                ..*old(self)
            }),
    {
        self.repetition_penalty = Some(repetition_penalty);
    }

    pub fn set_top_p(&mut self, top_p: u64)
        ensures
            *final(self) == (GenerationConfig { top_p: Some(top_p), ..*old(self) }),
    {
        self.top_p = Some(top_p);
    }

    pub fn set_top_k(&mut self, top_k: usize)
        ensures
            *final(self) == (GenerationConfig { top_k: Some(top_k), ..*old(self) }),
    {
        self.top_k = Some(top_k);
    }

    /// The end-of-sequence set as a vector: one element for a single id, the
    /// ids in their original order for a list, nothing when the field is
    /// absent.
    pub fn get_eos_token_id(&self) -> (r: Option<Vec<u32>>)
        ensures
            r is Some <==> self.eos_token_id is Some,
            r matches Some(ids) ==> (self.eos_token_id matches Some(eos)
                && ids@ == spec_eos_ids(eos)),
    {
        match &self.eos_token_id {
            Some(Eos::Single(id)) => Some(vec![*id]),
            Some(Eos::Multi(ids)) => Some(ids.clone()),
            None => None,
        }
    }

    /// The repetition penalty (a single-precision bit pattern), or the given
    /// default when the field is absent.
    pub fn get_repetition_penalty_or(&self, default: u32) -> (r: u32)
        ensures
            r == match self.repetition_penalty {
                Option::Some(p) => p,
                Option::None => default,
            },
    {
        match self.repetition_penalty {
            Some(p) => p,
            None => default,
        }
    }

    /// The token budget, or the given default when the field is absent.
    pub fn get_max_new_tokens_or(&self, default: usize) -> (r: usize)
        ensures
            r == match self.max_new_tokens {
                Option::Some(n) => n,
                Option::None => default,
            },
    {
        match self.max_new_tokens {
            Some(n) => n,
            None => default,
        }
    }

    /// Resolves this configuration to its sampling strategy. Deterministic
    /// arg-max wins whenever the temperature is absent or negligible,
    /// whatever `top_k` and `top_p` hold; with a usable temperature and
    /// neither of them present, every token stays in play.
    pub fn sampling(&self) -> (r: Sampling)
        ensures
            r == spec_sampling(*self),
            (self.temperature is None || spec_temperature_is_negligible(
                self.temperature->0,
            )) ==> r == Sampling::ArgMax,
            (self.temperature matches Some(t) && !spec_temperature_is_negligible(t)
                && self.top_k is None && self.top_p is None) ==> r == (Sampling::All {
                temperature: self.temperature->0,
            }),
    {
        let temperature = match self.temperature {
            Some(bits) => if temperature_is_negligible(bits) {
                None
            } else {
                Some(bits)
            },
            None => None,
        };

        match temperature {
            None => Sampling::ArgMax,
            Some(temperature) => match (self.top_k, self.top_p) {
                (None, None) => Sampling::All { temperature },
                (Some(k), None) => Sampling::TopK { k, temperature },
                (None, Some(p)) => Sampling::TopP { p, temperature },
                (Some(k), Some(p)) => Sampling::TopKThenTopP { k, p, temperature },
            },
        }
    }
}

/// The strategy's plain shape: the temperature (absent for deterministic
/// arg-max), the top-k bound and the top-p threshold, each when the variant
/// carries it. Distinct strategies have distinct shapes.
pub open spec fn spec_sampling_encoding(s: Sampling) -> (Option<u64>, Option<usize>, Option<
    u64,
>) {
    match s {
        Sampling::ArgMax => (Option::None, Option::None, Option::None),
        Sampling::All { temperature } => (Option::Some(temperature), Option::None, Option::None),
        Sampling::TopK { k, temperature } => (
            Option::Some(temperature),
            Option::Some(k),
            Option::None,
        ),
        Sampling::TopP { p, temperature } => (
            Option::Some(temperature),
            Option::None,
            Option::Some(p),
        ),
        Sampling::TopKThenTopP { k, p, temperature } => (
            Option::Some(temperature),
            Option::Some(k),
            Option::Some(p),
        ),
    }
}

/// The sampler `from_sampling` builds for a seed and a strategy shape: the
/// construction is deterministic, so the sampler value itself is named —
/// sessions started from equal seeds and equal configurations hold equal
/// samplers.
pub uninterp spec fn spec_processor_of(
    seed: u64,
    temperature: Option<u64>,
    k: Option<usize>,
    p: Option<u64>,
) -> candle_transformers::generation::LogitsProcessor;

/// Relies on candle_transformers::generation::LogitsProcessor::from_sampling:
/// builds the stateful sampler for one strategy, seeded so that the same
/// seed, strategy and score sequence reproduce the same tokens. The body
/// converts this crate's strategy one variant for one, turning stored bit
/// patterns back into doubles.
#[verifier::external_body]
fn make_logits_processor(
    seed: u64,
    sampling: Sampling,
) -> (r: candle_transformers::generation::LogitsProcessor)
    ensures
        r == ({
            let enc = spec_sampling_encoding(sampling);
            spec_processor_of(seed, enc.0, enc.1, enc.2)
        }),
        spec_processor_deterministic(r),
{
    let s = match sampling {
        Sampling::ArgMax => RuntimeSampling::ArgMax,
        Sampling::All { temperature } => RuntimeSampling::All { temperature: bytemuck::cast(temperature) },
        Sampling::TopK { k, temperature } => RuntimeSampling::TopK { k, temperature: bytemuck::cast(temperature) },
        Sampling::TopP { p, temperature } => RuntimeSampling::TopP { p: bytemuck::cast(p), temperature: bytemuck::cast(temperature) },
        Sampling::TopKThenTopP { k, p, temperature } => RuntimeSampling::TopKThenTopP { k, p: bytemuck::cast(p), temperature: bytemuck::cast(temperature) },
    };
    candle_transformers::generation::LogitsProcessor::from_sampling(seed, s)
}

impl GenerationConfig {
    /// The stateful sampler this configuration resolves to, seeded: exactly
    /// the sampler built from the given seed and the strategy `sampling`
    /// resolves, and its draws depend on nothing but its own state and the
    /// scores.
    pub fn logits_processor(&self, seed: u64) -> (r:
        candle_transformers::generation::LogitsProcessor)
        ensures
            r == ({
                let enc = spec_sampling_encoding(spec_sampling(*self));
                spec_processor_of(seed, enc.0, enc.1, enc.2)
            }),
            spec_processor_deterministic(r),
    {
        let sampling = self.sampling();
        make_logits_processor(seed, sampling)
    }
}

/// Whether one of `tokens` equals `token`.
fn contains_token(tokens: &Vec<u32>, token: u32) -> (r: bool)
    ensures
        r == tokens@.contains(token),
{
    let mut i: usize = 0;
    while i < tokens.len()
        invariant
            i <= tokens@.len(),
            forall|j: int| 0 <= j < i ==> tokens@[j] != token,
        decreases tokens@.len() - i,
    {
        if tokens[i] == token {
            assert(tokens@[i as int] == token);
            return true;
        }
        i = i + 1;
    }
    assert(!tokens@.contains(token));
    false
}

/// Where a context window of `context_size` tokens starts in a history of
/// `len` tokens: the window is the trailing `context_size` tokens, or the
/// whole history when it is shorter.
pub open spec fn spec_context_start(len: int, context_size: int) -> int {
    if context_size > len {
        0
    } else {
        len - context_size
    }
}

/// One interaction with the model capability, as a session records it.
pub ghost enum ModelCall {
    /// The recurrent cache was cleared.
    Reset,
    /// One forward pass: the token cells of the batched context tensor and
    /// the start position handed with it.
    Forward { context: Seq<u32>, start_pos: int },
}

/// The autoregressive generation loop: one session over one model. The
/// session owns the token history, the generated-token counter, the budget,
/// the end-of-sequence set and the seeded sampler; each step produces
/// exactly one token or one of the two expected terminal signals.
pub struct TextGeneration<M: Module> {
    model: M,
    device: candle_core::Device,
    logits_processor: candle_transformers::generation::LogitsProcessor,
    repetition_penalty: u32,
    repeat_last_n: usize,
    eos_token_id: Vec<u32>,
    max_new_tokens: usize,
    generated_tokens: usize,
    tokens: Vec<u32>,
    calls: Ghost<Seq<ModelCall>>,
}

impl<M: Module> TextGeneration<M> {
    /// The token history: the initial sequence plus everything sampled.
    pub closed spec fn spec_tokens(&self) -> Seq<u32> {
        self.tokens@
    }

    /// How many tokens this session has sampled.
    pub closed spec fn spec_generated(&self) -> int {
        self.generated_tokens as int
    }

    /// The budget of new tokens.
    pub closed spec fn spec_max_new_tokens(&self) -> int {
        self.max_new_tokens as int
    }

    /// The end-of-sequence token set.
    pub closed spec fn spec_eos(&self) -> Seq<u32> {
        self.eos_token_id@
    }

    /// The repetition penalty, as a single-precision bit pattern.
    pub closed spec fn spec_repetition_penalty(&self) -> u32 {
        self.repetition_penalty
    }

    /// How many trailing history tokens the penalty looks back over.
    pub closed spec fn spec_repeat_last_n(&self) -> int {
        self.repeat_last_n as int
    }

    /// The session's sampler.
    pub closed spec fn spec_sampler(&self) -> candle_transformers::generation::LogitsProcessor {
        self.logits_processor
    }

    /// The session's interactions with the model, in call order: every
    /// cache reset, and every forward pass with the context it was handed.
    pub closed spec fn spec_model_calls(&self) -> Seq<ModelCall> {
        self.calls@
    }

    /// Binds a model to a configuration: resolves the sampling strategy
    /// once, captures the penalty (default one, disabled) and the
    /// end-of-sequence set. A configuration without end-of-sequence
    /// information cannot drive a loop, so its presence is required here.
    pub fn new(
        model: M,
        device: candle_core::Device,
        config: &GenerationConfig,
        seed: u64,
        repeat_last_n: usize,
    ) -> (r: TextGeneration<M>)
        requires
            config.eos_token_id is Some,
        ensures
            r.spec_eos() == spec_eos_ids(config.eos_token_id->0),
            r.spec_repetition_penalty() == match config.repetition_penalty {
                Option::Some(p) => p,
                Option::None => PENALTY_ONE_BITS,
            },
            r.spec_repeat_last_n() == repeat_last_n,
            r.spec_max_new_tokens() == match config.max_new_tokens {
                Option::Some(n) => n as int,
                Option::None => 0,
            },
            r.spec_generated() == 0,
            r.spec_tokens() == Seq::<u32>::empty(),
            r.spec_model_calls() == Seq::<ModelCall>::empty(),
            r.spec_sampler() == ({
                let enc = spec_sampling_encoding(spec_sampling(*config));
                spec_processor_of(seed, enc.0, enc.1, enc.2)
            }),
            spec_processor_deterministic(r.spec_sampler()),
    {
        let eos_token_id = match &config.eos_token_id {
            Some(Eos::Single(id)) => vec![*id],
            Some(Eos::Multi(ids)) => ids.clone(),
            None => unreached(),
        };
        TextGeneration {
            model,
            device,
            logits_processor: config.logits_processor(seed),
            repetition_penalty: config.get_repetition_penalty_or(PENALTY_ONE_BITS),
            repeat_last_n,
            eos_token_id,
            max_new_tokens: config.get_max_new_tokens_or(0),
            generated_tokens: 0,
            tokens: Vec::new(),
            calls: Ghost(Seq::empty()),
        }
    }

    /// Applies the repetition penalty to the scores of the tokens in the
    /// lookback window — the trailing `repeat_last_n` history tokens — or,
    /// when the penalty is exactly one, hands the scores back untouched: the
    /// very tensor the model produced, with no transform between the model
    /// and the sampler.
    pub fn penalize_scores(&self, logits: candle_core::Tensor) -> (r: Result<
        candle_core::Tensor,
        candle_core::Error,
    >)
        ensures
            self.spec_repetition_penalty() == PENALTY_ONE_BITS ==> r == Ok::<
                candle_core::Tensor,
                candle_core::Error,
            >(logits),
            self.spec_repetition_penalty() != PENALTY_ONE_BITS ==> (r matches Ok(t)
                ==> spec_score_cells(t) == spec_penalized(
                spec_score_cells(logits),
                self.spec_repetition_penalty(),
                self.spec_tokens().skip(
                    spec_context_start(
                        self.spec_tokens().len() as int,
                        self.spec_repeat_last_n(),
                    ),
                ),
            )),
    {
        if self.repetition_penalty == PENALTY_ONE_BITS {
            Ok(logits)
        } else {
            let start_at = self.tokens.len().saturating_sub(self.repeat_last_n);
            let context = slice_subrange(self.tokens.as_slice(), start_at, self.tokens.len());
            proof {
                assert(context@ =~= self.spec_tokens().skip(
                    spec_context_start(
                        self.spec_tokens().len() as int,
                        self.spec_repeat_last_n(),
                    ),
                ));
            }
            tensor_apply_repeat_penalty(&logits, self.repetition_penalty, context)
        }
    }

    /// One generation step over the last `context_size` history tokens.
    ///
    /// The step fails with `MaxNewTokenExceeded` exactly when the counter
    /// has already reached the budget, and then changes nothing. Otherwise
    /// the model and the sampler run; a sampled token is always appended and
    /// counted, and is reported as `Eos` exactly when it belongs to the
    /// end-of-sequence set, with the count including it. A model or sampler
    /// failure is fatal and leaves the history and the counter unchanged.
    /// What the model was handed is recorded: a step that produced a token
    /// pushed exactly one `Forward` entry onto `spec_model_calls`, holding
    /// the cells of the context tensor — the trailing `context_size` history
    /// tokens — and the start position, history length minus the window's.
    pub(crate) fn next_token(&mut self, context_size: usize) -> (r: Result<u32, EngineError>)
        ensures
            final(self).spec_eos() == old(self).spec_eos(),
            final(self).spec_max_new_tokens() == old(self).spec_max_new_tokens(),
            final(self).spec_repetition_penalty() == old(self).spec_repetition_penalty(),
            final(self).spec_repeat_last_n() == old(self).spec_repeat_last_n(),
            (match r {
                Result::Err(EngineError::MaxNewTokenExceeded { .. }) => true,
                _ => false,
            }) <==> old(self).spec_generated() >= old(self).spec_max_new_tokens(),
            r matches Err(EngineError::MaxNewTokenExceeded { max_new_tokens }) ==> (
            max_new_tokens == old(self).spec_max_new_tokens() && final(self).spec_tokens()
                == old(self).spec_tokens() && final(self).spec_generated() == old(self).spec_generated()),
            r matches Ok(token) ==> (!old(self).spec_eos().contains(token) && final(self).spec_tokens() == old(self).spec_tokens().push(token) && final(self).spec_generated() == old(self).spec_generated() + 1),
            r matches Err(EngineError::Eos { eos_token_id, generated }) ==> (old(self).spec_eos().contains(eos_token_id) && final(self).spec_tokens() == old(self).spec_tokens().push(eos_token_id) && generated == old(self).spec_generated() + 1
                && final(self).spec_generated() == generated),
            r matches Err(EngineError::Candle(_)) ==> (final(self).spec_tokens() == old(self).spec_tokens() && final(self).spec_generated() == old(self).spec_generated()),
            (r is Ok || r matches Err(EngineError::Eos { .. })) ==> final(self).spec_generated()
                <= final(self).spec_max_new_tokens(),
            r matches Err(EngineError::MaxNewTokenExceeded { .. }) ==> final(self).spec_model_calls() == old(self).spec_model_calls(),
            (r is Ok || r matches Err(EngineError::Eos { .. })) ==> final(self).spec_model_calls() == old(self).spec_model_calls().push(
                ({
                    let start = spec_context_start(
                        old(self).spec_tokens().len() as int,
                        context_size as int,
                    );
                    ModelCall::Forward { context: old(self).spec_tokens().skip(start), start_pos: start }
                }),
            ),
            r matches Err(EngineError::Candle(_)) ==> (final(self).spec_model_calls() == old(self).spec_model_calls() || final(self).spec_model_calls() == old(self).spec_model_calls().push(
                ({
                    let start = spec_context_start(
                        old(self).spec_tokens().len() as int,
                        context_size as int,
                    );
                    ModelCall::Forward { context: old(self).spec_tokens().skip(start), start_pos: start }
                }),
            )),
            match r {
                Result::Ok(_) => true,
                Result::Err(e) => match e {
                    EngineError::MaxNewTokenExceeded { .. } => true,
                    EngineError::Eos { .. } => true,
                    EngineError::Candle(_) => true,
                    _ => false,
                },
            },
    {
        if self.generated_tokens >= self.max_new_tokens {
            return Err(EngineError::MaxNewTokenExceeded {
                max_new_tokens: self.max_new_tokens,
            });
        }

        let start_pos = self.tokens.len().saturating_sub(context_size);
        let context = slice_subrange(self.tokens.as_slice(), start_pos, self.tokens.len());
        let input = match tensor_from_tokens(context, &self.device) {
            Ok(t) => t,
            Err(e) => {
                return Err(candle_error(e));
            },
        };
        let input = match tensor_unsqueeze_front(&input) {
            Ok(t) => t,
            Err(e) => {
                return Err(candle_error(e));
            },
        };
        proof {
            assert(start_pos as int == spec_context_start(
                self.spec_tokens().len() as int,
                context_size as int,
            ));
            assert(spec_token_cells(input) =~= self.spec_tokens().skip(start_pos as int));
        }
        self.calls = Ghost(
            self.calls@.push(
                ModelCall::Forward { context: spec_token_cells(input), start_pos: start_pos as int },
            ),
        );
        let logits = match self.model.forward(&input, start_pos) {
            Ok(t) => t,
            Err(e) => {
                return Err(candle_error(e));
            },
        };
        let logits = match tensor_squeeze_front(&logits) {
            Ok(t) => t,
            Err(e) => {
                return Err(candle_error(e));
            },
        };
        let logits = match tensor_squeeze_front(&logits) {
            Ok(t) => t,
            Err(e) => {
                return Err(candle_error(e));
            },
        };
        let logits = match tensor_to_score_dtype(&logits) {
            Ok(t) => t,
            Err(e) => {
                return Err(candle_error(e));
            },
        };
        let logits = match self.penalize_scores(logits) {
            Ok(t) => t,
            Err(e) => {
                return Err(candle_error(e));
            },
        };

        let next_token = match self.logits_processor.sample(&logits) {
            Ok(t) => t,
            Err(e) => {
                return Err(candle_error(e));
            },
        };

        self.tokens.push(next_token);
        self.generated_tokens = self.generated_tokens + 1;
        if contains_token(&self.eos_token_id, next_token) {
            Err(EngineError::Eos {
                eos_token_id: next_token,
                generated: self.generated_tokens,
            })
        } else {
            Ok(next_token)
        }
    }

    /// Starts a fresh sequence over the same configuration: clears the
    /// model's recurrent cache, replaces the history with the initial
    /// tokens, resets the counter, sets the budget, and produces the first
    /// token. The recorded model calls say exactly what happened: one cache
    /// reset, then — unless the budget was already spent — one forward pass
    /// over the whole initial sequence at start position zero.
    pub fn apply(&mut self, ids: &[u32], max_new_tokens: usize) -> (r: Result<
        u32,
        EngineError,
    >)
        ensures
            final(self).spec_eos() == old(self).spec_eos(),
            final(self).spec_max_new_tokens() == max_new_tokens,
            (match r {
                Result::Err(EngineError::MaxNewTokenExceeded { .. }) => true,
                _ => false,
            }) <==> max_new_tokens == 0,
            r matches Err(EngineError::MaxNewTokenExceeded { max_new_tokens: m }) ==> (m
                == max_new_tokens && final(self).spec_tokens() == ids@ && final(self).spec_generated() == 0),
            r matches Ok(token) ==> (!final(self).spec_eos().contains(token) && final(self).spec_tokens() == ids@.push(token) && final(self).spec_generated() == 1),
            r matches Err(EngineError::Eos { eos_token_id, generated }) ==> (final(self).spec_eos().contains(eos_token_id) && final(self).spec_tokens() == ids@.push(
                eos_token_id,
            ) && generated == 1 && final(self).spec_generated() == 1),
            r matches Err(EngineError::Candle(_)) ==> (final(self).spec_tokens() == ids@
                && final(self).spec_generated() == 0),
            (r is Ok || r matches Err(EngineError::Eos { .. })) ==> final(self).spec_generated()
                <= final(self).spec_max_new_tokens(),
            r matches Err(EngineError::MaxNewTokenExceeded { .. })
                ==> final(self).spec_model_calls() == old(self).spec_model_calls().push(
                ModelCall::Reset,
            ),
            (r is Ok || r matches Err(EngineError::Eos { .. }))
                ==> final(self).spec_model_calls() == old(self).spec_model_calls().push(
                ModelCall::Reset,
            ).push((ModelCall::Forward { context: ids@, start_pos: 0 })),
            r matches Err(EngineError::Candle(_)) ==> (final(self).spec_model_calls() == old(self).spec_model_calls().push(ModelCall::Reset)
                || final(self).spec_model_calls() == old(self).spec_model_calls().push(
                ModelCall::Reset,
            ).push((ModelCall::Forward { context: ids@, start_pos: 0 }))),
            match r {
                Result::Ok(_) => true,
                Result::Err(e) => match e {
                    EngineError::MaxNewTokenExceeded { .. } => true,
                    EngineError::Eos { .. } => true,
                    EngineError::Candle(_) => true,
                    _ => false,
                },
            },
    {
        self.model.reset();
        self.calls = Ghost(self.calls@.push(ModelCall::Reset));
        self.tokens = slice_to_vec(ids);
        self.generated_tokens = 0;
        self.max_new_tokens = max_new_tokens;
        let context_size = self.tokens.len();
        let r = self.next_token(context_size);
        proof {
            assert(ids@.skip(0) =~= ids@);
        }
        r
    }

    /// One subsequent step. The model receives only the most recently
    /// appended token as context, at start position history length minus one
    /// — the recorded forward call says so exactly; its own recurrent cache
    /// carries the rest of the history. The step contract is `next_token`'s.
    pub fn next(&mut self) -> (r: Result<u32, EngineError>)
        ensures
            final(self).spec_eos() == old(self).spec_eos(),
            final(self).spec_max_new_tokens() == old(self).spec_max_new_tokens(),
            (match r {
                Result::Err(EngineError::MaxNewTokenExceeded { .. }) => true,
                _ => false,
            }) <==> old(self).spec_generated() >= old(self).spec_max_new_tokens(),
            r matches Err(EngineError::MaxNewTokenExceeded { max_new_tokens }) ==> (
            max_new_tokens == old(self).spec_max_new_tokens() && final(self).spec_tokens()
                == old(self).spec_tokens() && final(self).spec_generated() == old(self).spec_generated()),
            r matches Ok(token) ==> (!old(self).spec_eos().contains(token) && final(self).spec_tokens() == old(self).spec_tokens().push(token) && final(self).spec_generated() == old(self).spec_generated() + 1),
            r matches Err(EngineError::Eos { eos_token_id, generated }) ==> (old(self).spec_eos().contains(eos_token_id) && final(self).spec_tokens() == old(self).spec_tokens().push(eos_token_id) && generated == old(self).spec_generated() + 1
                && final(self).spec_generated() == generated),
            r matches Err(EngineError::Candle(_)) ==> (final(self).spec_tokens() == old(self).spec_tokens() && final(self).spec_generated() == old(self).spec_generated()),
            (r is Ok || r matches Err(EngineError::Eos { .. })) ==> final(self).spec_generated()
                <= final(self).spec_max_new_tokens(),
            r matches Err(EngineError::MaxNewTokenExceeded { .. })
                ==> final(self).spec_model_calls() == old(self).spec_model_calls(),
            (r is Ok || r matches Err(EngineError::Eos { .. }))
                ==> final(self).spec_model_calls() == old(self).spec_model_calls().push(
                ({
                    let start = spec_context_start(old(self).spec_tokens().len() as int, 1);
                    ModelCall::Forward { context: old(self).spec_tokens().skip(start), start_pos: start }
                }),
            ),
            r matches Err(EngineError::Candle(_)) ==> (final(self).spec_model_calls() == old(self).spec_model_calls()
                || final(self).spec_model_calls() == old(self).spec_model_calls().push(
                ({
                    let start = spec_context_start(old(self).spec_tokens().len() as int, 1);
                    ModelCall::Forward { context: old(self).spec_tokens().skip(start), start_pos: start }
                }),
            )),
            match r {
                Result::Ok(_) => true,
                Result::Err(e) => match e {
                    EngineError::MaxNewTokenExceeded { .. } => true,
                    EngineError::Eos { .. } => true,
                    EngineError::Candle(_) => true,
                    _ => false,
                },
            },
    {
        self.next_token(1)
    }
}

} // verus!
