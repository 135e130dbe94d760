//! Trusted view of the JSON tree type used by configuration parsing.
//!
//! Documents (generation configurations, weight-shard indexes) are parsed by
//! serde_json into its tree value. The tree itself is opaque, but it carries
//! a ghost image: `spec_parse` names what parsing a document yields, and
//! `spec_json` names the image of one parsed value, a `SpecJson` tree of
//! plain mathematical data. Every accessor below is specified against that
//! image, so the modules that read documents can state exactly when they
//! succeed and what they return.

use vstd::prelude::*;

verus! {

#[verifier::external_type_specification]
#[verifier::external_body]
pub struct ExValue(serde_json::Value);

#[verifier::external_type_specification]
#[verifier::external_body]
pub struct ExJsonError(serde_json::Error);

#[verifier::external_type_specification]
#[verifier::external_body]
#[verifier::reject_recursive_types(K)]
#[verifier::reject_recursive_types(V)]
pub struct ExJsonMap<K, V>(serde_json::Map<K, V>);

/// What the number accessors can read out of one JSON number: the value as
/// an unsigned integer when it is one, and the IEEE-754 bit patterns of the
/// value read as a double and as a single (the single rounded from the
/// double, as serde itself rounds).
pub ghost struct SpecJsonNumber {
    pub unsigned: Option<u64>,
    pub double_bits: u64,
    pub single_bits: u32,
}

/// The ghost image of a JSON value: plain mathematical data in place of the
/// opaque tree. An object's entries stand in the map's iteration order.
pub ghost enum SpecJson {
    Null,
    Bool(bool),
    Num(SpecJsonNumber),
    Str(Seq<char>),
    Arr(Seq<SpecJson>),
    Obj(Seq<(Seq<char>, SpecJson)>),
}

/// What parsing a document yields: nothing for a malformed document, the
/// image of the parsed tree otherwise. Parsing is a function of the text
/// alone; this names its outcome.
pub uninterp spec fn spec_parse(text: Seq<char>) -> Option<SpecJson>;

/// The ghost image of a parsed JSON value.
pub uninterp spec fn spec_json(value: serde_json::Value) -> SpecJson;

/// The entries a JSON object map holds, in its iteration order.
pub uninterp spec fn spec_json_map(
    map: serde_json::Map<String, serde_json::Value>,
) -> Seq<(Seq<char>, SpecJson)>;

/// The value of an object's field: the first entry with the key (keys are
/// unique in a parsed object, so the first is the only one).
pub open spec fn spec_obj_get(
    entries: Seq<(Seq<char>, SpecJson)>,
    key: Seq<char>,
) -> Option<SpecJson>
    decreases entries.len(),
{
    if entries.len() == 0 {
        Option::None
    } else if entries.first().0 == key {
        Option::Some(entries.first().1)
    } else {
        spec_obj_get(entries.drop_first(), key)
    }
}

/// The field of a document, when the document is an object holding it.
pub open spec fn spec_field(doc: SpecJson, key: Seq<char>) -> Option<SpecJson> {
    match doc {
        SpecJson::Obj(entries) => spec_obj_get(entries, key),
        _ => Option::None,
    }
}

/// Relies on serde_json::from_str: parses a JSON document into a tree value
/// whose image is `spec_parse` of the text, or reports a syntax error
/// exactly when the text does not parse.
#[verifier::external_body]
pub(crate) fn parse_json(text: &str) -> (r: Result<serde_json::Value, serde_json::Error>)
    ensures
        r is Ok <==> spec_parse(text@) is Some,
        r matches Ok(v) ==> Some(spec_json(v)) == spec_parse(text@),
{
    serde_json::from_str(text)
}

/// Relies on serde_json::Value::get: looks a key up when the value is a JSON
/// object, returning nothing for a missing key or a non-object.
#[verifier::external_body]
pub(crate) fn json_get<'a>(
    value: &'a serde_json::Value,
    key: &str,
) -> (r: Option<&'a serde_json::Value>)
    ensures
        r is Some <==> spec_field(spec_json(*value), key@) is Some,
        r matches Some(field) ==> Some(spec_json(*field)) == spec_field(
            spec_json(*value),
            key@,
        ),
{
    value.get(key)
}

/// Relies on serde_json::Value::as_u64: the value as an unsigned integer
/// exactly when it is a JSON number representable as one.
#[verifier::external_body]
pub(crate) fn json_as_u64(value: &serde_json::Value) -> (r: Option<u64>)
    ensures
        r == match spec_json(*value) {
            SpecJson::Num(n) => n.unsigned,
            _ => Option::<u64>::None,
        },
{
    value.as_u64()
}

/// Relies on serde_json::Value::as_array: the element vector exactly when
/// the value is a JSON array; the elements' images are the array's items in
/// order.
#[verifier::external_body]
pub(crate) fn json_as_array<'a>(
    value: &'a serde_json::Value,
) -> (r: Option<&'a Vec<serde_json::Value>>)
    ensures
        r is Some <==> spec_json(*value) is Arr,
        r matches Some(items) ==> (spec_json(*value) matches SpecJson::Arr(a)
            && items@.len() == a.len() && forall|i: int|
            0 <= i < a.len() ==> spec_json(#[trigger] items@[i]) == a[i]),
{
    value.as_array()
}

/// Relies on serde_json::Value::as_str: the text exactly when the value is a
/// JSON string.
#[verifier::external_body]
pub(crate) fn json_as_str<'a>(value: &'a serde_json::Value) -> (r: Option<&'a str>)
    ensures
        r is Some <==> spec_json(*value) is Str,
        r matches Some(s) ==> spec_json(*value) == SpecJson::Str(s@),
{
    value.as_str()
}

/// Relies on serde_json::Value::as_object: the key-value map exactly when
/// the value is a JSON object; the map's entries are the object's.
#[verifier::external_body]
pub(crate) fn json_as_object<'a>(
    value: &'a serde_json::Value,
) -> (r: Option<&'a serde_json::Map<String, serde_json::Value>>)
    ensures
        r is Some <==> spec_json(*value) is Obj,
        r matches Some(map) ==> spec_json(*value) == SpecJson::Obj(spec_json_map(*map)),
{
    value.as_object()
}

/// Relies on serde_json::Value::as_f64: the value as a double-precision
/// number exactly when it is a JSON number, handed back as its IEEE-754 bit
/// pattern.
#[verifier::external_body]
pub(crate) fn json_number_bits(value: &serde_json::Value) -> (r: Option<u64>)
    ensures
        r == match spec_json(*value) {
            SpecJson::Num(n) => Option::Some(n.double_bits),
            _ => Option::<u64>::None,
        },
{
    value.as_f64().map(|x| x.to_bits())
}

/// Relies on serde_json::Value::as_f64 and num_traits::ToPrimitive::to_f32:
/// the value as a single-precision number (rounded from the parsed double)
/// exactly when it is a JSON number, handed back as its IEEE-754 bit
/// pattern.
#[verifier::external_body]
pub(crate) fn json_number_bits_single(value: &serde_json::Value) -> (r: Option<u32>)
    ensures
        r == match spec_json(*value) {
            SpecJson::Num(n) => Option::Some(n.single_bits),
            _ => Option::<u32>::None,
        },
{
    value
        .as_f64()
        .and_then(|x| num_traits::ToPrimitive::to_f32(&x))
        .map(|y| y.to_bits())
}

/// Relies on serde_json::Map::values: the values of a JSON object, cloned
/// into a vector in the map's iteration order — the images of the map's
/// entries, in the same order.
#[verifier::external_body]
pub(crate) fn json_map_values(
    map: &serde_json::Map<String, serde_json::Value>,
) -> (r: Vec<serde_json::Value>)
    ensures
        r@.len() == spec_json_map(*map).len(),
        forall|i: int| 0 <= i < r@.len() ==> spec_json(#[trigger] r@[i]) == spec_json_map(
            *map,
        )[i].1,
{
    map.values().cloned().collect()
}

} // verus!
