//! Model repositories and the weight-shard index.
//!
//! A repository maps a model identifier to the paths of its well-known
//! files. Paths are plain strings here: a local repository only ever joins
//! its root directory with a file name, which is exact string arithmetic.
//! The weight-shard index is the one piece of real logic: many tensor names
//! map to few shard file names, and the resolver deduplicates the names
//! before they are turned into paths.

use vstd::prelude::*;

use crate::error::EngineError;
use crate::json::SpecJson;
use crate::json::json_as_object;
use crate::json::json_as_str;
use crate::json::json_get;
use crate::json::json_map_values;
use crate::json::parse_json;
use crate::json::spec_field;
use crate::json::spec_json;
use crate::json::spec_json_map;
use crate::json::spec_parse;

verus! {

/// The path a local repository hands out for a file name: the root, one
/// separator, the name.
pub open spec fn spec_joined_path(root: Seq<char>, name: Seq<char>) -> Seq<char> {
    root + "/"@ + name
}

/// A model repository: resolves the well-known files of one model to paths.
/// Implementations that reach the network or the file system live with the
/// callers; the engine itself only consumes the paths.
pub trait Repo {
    /// The model identifier this repository serves.
    fn model_id(&self) -> &str;

    /// The path of an arbitrary file of the repository.
    fn get(&self, filename: &str) -> Result<String, EngineError>;

    /// The path of the tokenizer configuration document.
    fn tokenizer_config_file(&self) -> Result<String, EngineError>;

    /// The path of the tokenizer definition file.
    fn tokenizer_file(&self) -> Result<String, EngineError>;

    /// The path of the model configuration document.
    fn config_file(&self) -> Result<String, EngineError>;

    /// The paths of the model weight files.
    fn safetensors_files(&self) -> Result<Vec<String>, EngineError>;

    /// The path of the legacy single-file weight checkpoint.
    fn pytorch_model_file(&self) -> Result<String, EngineError>;

    /// The path of the generation configuration document.
    fn generate_config_file(&self) -> Result<String, EngineError>;
}

/// A repository rooted at a local directory.
pub struct LocalRepo {
    model_id: String,
    path: String,
}

impl LocalRepo {
    /// The model identifier, as a character sequence.
    pub closed spec fn spec_model_id(&self) -> Seq<char> {
        self.model_id@
    }

    /// The root directory, as a character sequence.
    pub closed spec fn spec_path(&self) -> Seq<char> {
        self.path@
    }

    pub fn new(model_id: &str, path: &str) -> (r: LocalRepo)
        ensures
            r.spec_model_id() == model_id@,
            r.spec_path() == path@,
    {
        LocalRepo { model_id: model_id.to_owned(), path: path.to_owned() }
    }

    /// Joins the repository root with a file name.
    fn get_file(&self, p: &str) -> (r: String)
        ensures
            r@ == spec_joined_path(self.spec_path(), p@),
    {
        let mut joined = self.path.clone();
        joined.append("/");
        joined.append(p);
        joined
    }
}

impl Repo for LocalRepo {
    fn model_id(&self) -> (r: &str)
        ensures
            r@ == self.spec_model_id(),
    {
        self.model_id.as_str()
    }

    fn get(&self, filename: &str) -> (r: Result<String, EngineError>)
        ensures
            r matches Ok(p) && p@ == spec_joined_path(self.spec_path(), filename@),
    {
        Ok(self.get_file(filename))
    }

    fn tokenizer_config_file(&self) -> (r: Result<String, EngineError>)
        ensures
            r matches Ok(p) && p@ == spec_joined_path(
                self.spec_path(),
                "tokenizer_config.json"@,
            ),
    {
        Ok(self.get_file("tokenizer_config.json"))
    }

    fn tokenizer_file(&self) -> (r: Result<String, EngineError>)
        ensures
            r matches Ok(p) && p@ == spec_joined_path(self.spec_path(), "tokenizer.json"@),
    {
        Ok(self.get_file("tokenizer.json"))
    }

    fn config_file(&self) -> (r: Result<String, EngineError>)
        ensures
            r matches Ok(p) && p@ == spec_joined_path(self.spec_path(), "config.json"@),
    {
        Ok(self.get_file("config.json"))
    }

    /// The consolidated weight file. When it is absent on disk the caller
    /// reads the shard-index document instead and resolves it through
    /// `load_safetensors`; looking at the disk is the caller's business, not
    /// this crate's.
    fn safetensors_files(&self) -> (r: Result<Vec<String>, EngineError>)
        ensures
            r matches Ok(ps) && ps@.len() == 1 && ps@[0]@ == spec_joined_path(
                self.spec_path(),
                "model.safetensors"@,
            ),
    {
        let mut files: Vec<String> = Vec::new();
        files.push(self.get_file("model.safetensors"));
        Ok(files)
    }

    fn pytorch_model_file(&self) -> (r: Result<String, EngineError>)
        ensures
            r matches Ok(p) && p@ == spec_joined_path(self.spec_path(), "pytorch_model.bin"@),
    {
        Ok(self.get_file("pytorch_model.bin"))
    }

    fn generate_config_file(&self) -> (r: Result<String, EngineError>)
        ensures
            r matches Ok(p) && p@ == spec_joined_path(
                self.spec_path(),
                "generate_config.json"@,
            ),
    {
        Ok(self.get_file("generate_config.json"))
    }
}

/// Whether no two entries of `names` read the same.
pub open spec fn spec_distinct_strings(names: Seq<String>) -> bool {
    forall|i: int, j: int| 0 <= i < j < names.len() ==> names[i]@ != names[j]@
}

/// Whether some entry of `names` reads as `s`.
pub open spec fn spec_contains_string(names: Seq<String>, s: Seq<char>) -> bool {
    exists|i: int| 0 <= i < names.len() && names[i]@ == s
}

fn contains_string(names: &Vec<String>, s: &String) -> (r: bool)
    ensures
        r == spec_contains_string(names@, s@),
{
    let mut i: usize = 0;
    while i < names.len()
        invariant
            i <= names@.len(),
            forall|j: int| 0 <= j < i ==> names@[j]@ != s@,
        decreases names@.len() - i,
    {
        if names[i].eq(s) {
            assert(names@[i as int]@ == s@);
            return true;
        }
        i = i + 1;
    }
    false
}

/// The texts of a name vector, in order.
pub open spec fn spec_views(names: Seq<String>) -> Seq<Seq<char>> {
    names.map_values(|s: String| s@)
}

/// The first occurrences of a name sequence, in order: each name once, at
/// the position order of its first appearance.
pub open spec fn spec_first_occurrences(names: Seq<Seq<char>>) -> Seq<Seq<char>>
    decreases names.len(),
{
    if names.len() == 0 {
        Seq::empty()
    } else {
        let prefix = spec_first_occurrences(names.drop_last());
        if prefix.contains(names.last()) {
            prefix
        } else {
            prefix.push(names.last())
        }
    }
}

/// Holding a name and holding its text are the same thing.
proof fn lemma_views_contains(names: Seq<String>, s: Seq<char>)
    ensures
        spec_contains_string(names, s) <==> spec_views(names).contains(s),
{
    if spec_contains_string(names, s) {
        let k = choose|k: int| 0 <= k < names.len() && names[k]@ == s;
        assert(spec_views(names)[k] == s);
    }
    if spec_views(names).contains(s) {
        let k = choose|k: int| 0 <= k < spec_views(names).len() && spec_views(names)[k] == s;
        assert(names[k]@ == s);
    }
}

/// Drops repeated names, keeping the first occurrence of each in order: the
/// result's texts are exactly `spec_first_occurrences` of the input's, so no
/// two entries read the same, every entry of the result occurs in the input,
/// and every entry of the input occurs in the result.
pub fn dedup_names(names: &Vec<String>) -> (r: Vec<String>)
    ensures
        spec_views(r@) == spec_first_occurrences(spec_views(names@)),
        spec_distinct_strings(r@),
        forall|j: int| 0 <= j < r@.len() ==> spec_contains_string(names@, #[trigger] r@[j]@),
        forall|j: int| 0 <= j < names@.len() ==> spec_contains_string(
            r@,
            #[trigger] names@[j]@,
        ),
{
    let mut out: Vec<String> = Vec::new();
    let mut i: usize = 0;
    while i < names.len()
        invariant
            i <= names@.len(),
            spec_views(out@) == spec_first_occurrences(spec_views(names@.take(i as int))),
            spec_distinct_strings(out@),
            forall|j: int| 0 <= j < out@.len() ==> spec_contains_string(
                names@,
                #[trigger] out@[j]@,
            ),
            forall|j: int| 0 <= j < i ==> spec_contains_string(out@, #[trigger] names@[j]@),
        decreases names@.len() - i,
    {
        let ghost prior = out@;
        let present = contains_string(&out, &names[i]);
        if !present {
            out.push(names[i].clone());
            proof {
                assert(out@[out@.len() - 1]@ == names@[i as int]@);
            }
        }
        proof {
            assert(spec_contains_string(out@, names@[i as int]@));
            assert forall|j: int| 0 <= j < i implies spec_contains_string(
                out@,
                #[trigger] names@[j]@,
            ) by {
                let k = choose|k: int| 0 <= k < prior.len() && prior[k]@ == names@[j]@;
                if k >= 0 && k < prior.len() && prior[k]@ == names@[j]@ {
                    assert(out@[k]@ == names@[j]@);
                }
            }

            // The views invariant advances: the next prefix's first
            // occurrences either absorb the new name or append it.
            let pv = spec_views(names@.take(i as int));
            let pv1 = spec_views(names@.take(i + 1));
            assert(pv1.drop_last() =~= pv);
            assert(pv1.last() == names@[i as int]@);
            lemma_views_contains(prior, names@[i as int]@);
            if present {
                assert(spec_first_occurrences(pv).contains(names@[i as int]@));
                assert(spec_first_occurrences(pv1) == spec_first_occurrences(pv));
            } else {
                assert(!spec_first_occurrences(pv).contains(names@[i as int]@));
                assert(spec_views(out@) =~= spec_views(prior).push(names@[i as int]@));
                assert(spec_first_occurrences(pv1) == spec_first_occurrences(pv).push(
                    names@[i as int]@,
                ));
            }
        }
        i = i + 1;
    }
    proof {
        assert(names@.take(names@.len() as int) =~= names@);
    }
    out
}

/// Appending the same sequence on the left keeps distinct sequences
/// distinct.
proof fn lemma_append_cancel(a: Seq<char>, b: Seq<char>, c: Seq<char>)
    requires
        a + b == a + c,
    ensures
        b == c,
{
    assert((a + b).len() == a.len() + b.len());
    assert((a + c).len() == a.len() + c.len());
    assert(b.len() == c.len());
    assert forall|k: int| 0 <= k < b.len() implies b[k] == c[k] by {
        assert((a + b)[a.len() + k] == b[k]);
        assert((a + c)[a.len() + k] == c[k]);
    }
    assert(b =~= c);
}

/// The shard file names a weight map's entries mention: the string values,
/// in entry order, duplicates kept; non-string values contribute nothing, as
/// the index format only maps tensor names to shard file names.
pub open spec fn spec_shard_names(entries: Seq<(Seq<char>, SpecJson)>) -> Seq<Seq<char>>
    decreases entries.len(),
{
    if entries.len() == 0 {
        Seq::empty()
    } else {
        spec_shard_names(entries.drop_last()) + (match entries.last().1 {
            SpecJson::Str(s) => seq![s],
            _ => Seq::<Seq<char>>::empty(),
        })
    }
}

/// Reads a weight-shard index document and returns the shard file names its
/// `weight_map` field mentions, deduplicated, first occurrences in order. It
/// succeeds exactly when the document parses and holds a `weight_map`
/// object, and then returns exactly the distinct string values of that
/// object.
pub fn read_safetensors_index(json_text: &str) -> (r: Result<Vec<String>, EngineError>)
    ensures
        r is Ok <==> (spec_parse(json_text@) matches Some(doc) && spec_field(
            doc,
            "weight_map"@,
        ) matches Some(wm) && wm is Obj),
        r matches Ok(names) ==> ({
            let doc = spec_parse(json_text@)->0;
            &&& spec_field(doc, "weight_map"@) matches Some(wm)
            &&& wm matches SpecJson::Obj(entries)
            &&& spec_views(names@) == spec_first_occurrences(spec_shard_names(entries))
        }),
        r matches Ok(names) ==> spec_distinct_strings(names@),
        r matches Err(e) ==> (e is Json <==> spec_parse(json_text@) is None),
{
    let root = match parse_json(json_text) {
        Ok(v) => v,
        Err(e) => {
            return Err(EngineError::Json(e));
        },
    };

    let weight_map = match json_get(&root, "weight_map") {
        Some(v) => v,
        None => {
            return Err(EngineError::Msg("no weight map in the index document".to_owned()));
        },
    };

    let map = match json_as_object(weight_map) {
        Some(m) => m,
        None => {
            return Err(EngineError::Msg("the weight map is not a map".to_owned()));
        },
    };

    let ghost entries = spec_json_map(*map);
    let values = json_map_values(map);
    let mut names: Vec<String> = Vec::new();
    let mut i: usize = 0;
    while i < values.len()
        invariant
            values@.len() == entries.len(),
            forall|k: int| 0 <= k < entries.len() ==> spec_json(#[trigger] values@[k])
                == entries[k].1,
            i <= entries.len(),
            spec_views(names@) == spec_shard_names(entries.take(i as int)),
        decreases values@.len() - i,
    {
        let ghost prior = names@;
        if let Some(s) = json_as_str(&values[i]) {
            names.push(s.to_owned());
        }
        proof {
            assert(entries.take(i + 1).drop_last() =~= entries.take(i as int));
            assert(entries.take(i + 1).last() == entries[i as int]);
            match entries[i as int].1 {
                SpecJson::Str(s) => {
                    assert(spec_views(names@) =~= spec_views(prior).push(s));
                    assert(spec_shard_names(entries.take(i + 1)) =~= spec_shard_names(
                        entries.take(i as int),
                    ).push(s));
                },
                _ => {
                    assert(spec_shard_names(entries.take(i + 1)) =~= spec_shard_names(
                        entries.take(i as int),
                    ));
                },
            }
        }
        i = i + 1;
    }
    proof {
        assert(entries.take(entries.len() as int) =~= entries);
    }

    Ok(dedup_names(&names))
}

/// Joins a repository root with every shard name of a weight-shard index
/// document: the resolved file list, one path per distinct shard, in first-
/// occurrence order. It succeeds exactly when the index reads, and then the
/// list holds exactly one entry, root/name, for each distinct shard name.
pub fn load_safetensors(path: &str, index_json: &str) -> (r: Result<
    Vec<String>,
    EngineError,
>)
    ensures
        r is Ok <==> (spec_parse(index_json@) matches Some(doc) && spec_field(
            doc,
            "weight_map"@,
        ) matches Some(wm) && wm is Obj),
        r matches Ok(files) ==> ({
            let doc = spec_parse(index_json@)->0;
            &&& spec_field(doc, "weight_map"@) matches Some(wm)
            &&& wm matches SpecJson::Obj(entries)
            &&& ({
                let shards = spec_first_occurrences(spec_shard_names(entries));
                files@.len() == shards.len() && (forall|j: int|
                    0 <= j < files@.len() ==> files@[j]@ == spec_joined_path(
                        path@,
                        #[trigger] shards[j],
                    ))
            })
        }),
        r matches Ok(files) ==> forall|i: int, j: int|
            0 <= i < j < files@.len() ==> files@[i]@ != files@[j]@,
        r matches Err(e) ==> (e is Json <==> spec_parse(index_json@) is None),
{
    let names = read_safetensors_index(index_json)?;
    let mut files: Vec<String> = Vec::new();
    let mut i: usize = 0;
    while i < names.len()
        invariant
            i <= names@.len(),
            spec_distinct_strings(names@),
            files@.len() == i,
            forall|j: int| 0 <= j < i ==> files@[j]@ == spec_joined_path(
                path@,
                names@[j]@,
            ),
        decreases names@.len() - i,
    {
        let mut joined = path.to_owned();
        joined.append("/");
        joined.append(names[i].as_str());
        files.push(joined);
        i = i + 1;
    }
    proof {
        assert forall|a: int, b: int| 0 <= a < b < files@.len() implies files@[a]@
            != files@[b]@ by {
            assert(names@[a]@ != names@[b]@);
            if files@[a]@ == files@[b]@ {
                assert((path@ + "/"@) + names@[a]@ == (path@ + "/"@) + names@[b]@);
                lemma_append_cancel(path@ + "/"@, names@[a]@, names@[b]@);
            }
        }
    }
    Ok(files)
}

} // verus!
