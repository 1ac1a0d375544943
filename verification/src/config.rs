//! The policy document: parsing and the resource-path matcher.
//!
//! The policy source is a JSON document `{ "key": <signing secret>, "acl":
//! [ <rule> ... ] }`; each rule is `{ "name": <string>, "resource": {
//! "type": <string>, "path": <string or { "regex": <string> }>, "accesses":
//! [ { "operation": <string>, "subject": <optional mapping> } ] } }`.
//!
//! The `serde_json` crate reads the raw JSON shape into plain strings (the
//! `Raw*` types below). That decode is a deterministic function of the
//! bytes, named `json_shape`; the trusted readers promise their pieces
//! belong to it, and `parse_policy`'s contract ties acceptance and result
//! to it exactly. Everything after the shape boundary — splitting paths
//! into segments, anchoring and compiling the per-segment patterns,
//! compiling subject constraints, and every rejection — is verified. A
//! document either parses wholly or is rejected wholly.

use vstd::prelude::*;
use vstd::string::StringExecFns;
use crate::pattern::{regex_compiles, regex_match, CompiledRegex};
use crate::text::{drop_empty, split_chars, split_nonempty, str_eq};

verus! {

/// Why a policy document was rejected: `MalformedConfig` for a document whose
/// structure is invalid, `InvalidPattern` for a regular expression that does
/// not compile.
#[derive(Clone, Copy, Debug, PartialEq, Eq, Structural)]
pub enum ConfigError {
    MalformedConfig,
    InvalidPattern,
}

/// A resource path as it stands in the document: a literal string, a
/// `{ "regex": ... }` pattern string, or anything else (rejected).
pub enum RawPath {
    Text(String),
    Pattern(String),
    Invalid,
}

/// An access grant as it stands in the document.
pub struct RawAccess {
    pub operation: String,
    pub subject: Option<Vec<(String, String)>>,
}

/// A rule as it stands in the document; `resource_type` is `None` when the
/// resource carries no string `type` field.
pub struct RawAcl {
    pub name: String,
    pub resource_type: Option<String>,
    pub path: RawPath,
    pub accesses: Vec<RawAccess>,
}

/// The whole document as it stands in the source, before compilation.
pub struct RawConfig {
    pub key: String,
    pub acl: Vec<RawAcl>,
}

/// A compiled resource path: literal segments compared verbatim, or
/// per-segment anchored regular expressions.
pub enum DadgetResourcePath {
    Str(Vec<String>),
    Regex(Vec<CompiledRegex>),
}

/// A compiled access grant: the operation it names and the optional subject
/// constraints, one compiled (unanchored) regular expression per claim name.
pub struct Accesses {
    pub operation: String,
    pub subject: Option<Vec<(String, CompiledRegex)>>,
}

/// A rule's compiled resource: its kind tag, path matcher and access grants.
pub struct Resource {
    pub resource_type: Option<String>,
    pub path: DadgetResourcePath,
    pub accesses: Vec<Accesses>,
}

/// One compiled rule of the access-control list.
pub struct Acl {
    pub name: String,
    pub resource: Resource,
}

/// The compiled policy document: the token signing key and the rules, in
/// document order. Never mutated after construction.
pub struct Config {
    pub key: String,
    pub acl: Vec<Acl>,
}

// ---------------------------------------------------------------------------
// Path matching
// ---------------------------------------------------------------------------

/// Whether a compiled path matches the addressed components: a 0-segment
/// literal matches every topic; a 1-segment path matches a lone database
/// component; a 2-segment path matches a database/subset pair; any other
/// count matches nothing.
pub open spec fn path_matches(p: DadgetResourcePath, db: Seq<char>, subset: Option<Seq<char>>) -> bool {
    match p {
        DadgetResourcePath::Str(x) => {
            if x@.len() == 0 {
                true
            } else if x@.len() == 1 {
                subset is None && x@[0]@ == db
            } else if x@.len() == 2 {
                subset is Some && x@[0]@ == db && x@[1]@ == subset->0
            } else {
                false
            }
        },
        DadgetResourcePath::Regex(x) => {
            if x@.len() == 1 {
                subset is None && regex_match(x@[0]@, db)
            } else if x@.len() == 2 {
                subset is Some && regex_match(x@[0]@, db) && regex_match(x@[1]@, subset->0)
            } else {
                false
            }
        },
    }
}

impl DadgetResourcePath {
    /// Whether this path matches the addressed components.
    pub fn check_path(&self, db_name: &str, subset_name: Option<&str>) -> (r: bool)
        ensures
            r == path_matches(*self, db_name@, subset_name.deep_view()),
    {
        match self {
            DadgetResourcePath::Str(x) => {
                if x.len() == 0 {
                    true
                } else if x.len() == 1 {
                    subset_name.is_none() && str_eq(x[0].as_str(), db_name)
                } else if x.len() == 2 {
                    match subset_name {
                        Some(subset) => str_eq(x[0].as_str(), db_name) && str_eq(
                            x[1].as_str(),
                            subset,
                        ),
                        None => false,
                    }
                } else {
                    false
                }
            },
            DadgetResourcePath::Regex(x) => {
                if x.len() == 1 {
                    subset_name.is_none() && x[0].is_match(db_name)
                } else if x.len() == 2 {
                    match subset_name {
                        Some(subset) => x[0].is_match(db_name) && x[1].is_match(subset),
                        None => false,
                    }
                } else {
                    false
                }
            },
        }
    }
}

// ---------------------------------------------------------------------------
// The trusted JSON shape boundary
// ---------------------------------------------------------------------------

/// The raw policy shape that decoding these bytes as JSON yields: `None` when
/// the bytes are not a JSON object with a string `key` and an `acl` array of
/// well-shaped rules (a string `name`, a `resource` object with an `accesses`
/// array of objects, each with a string `operation` and an optional object
/// `subject` of string values). Decoding is a deterministic function of the
/// bytes alone; the trusted readers below each hand out one piece of this
/// one shape, and `decode_config` assembles and proves the whole.
pub uninterp spec fn json_shape(bytes: Seq<u8>) -> Option<RawConfig>;

/// The decoded document of a well-shaped byte sequence.
pub open spec fn shape_doc(bytes: Seq<u8>) -> RawConfig {
    json_shape(bytes)->0
}

/// Whether two raw paths carry the same form and the same text.
pub open spec fn raw_path_equiv(a: RawPath, b: RawPath) -> bool {
    match (a, b) {
        (RawPath::Text(x), RawPath::Text(y)) => x@ == y@,
        (RawPath::Pattern(x), RawPath::Pattern(y)) => x@ == y@,
        (RawPath::Invalid, RawPath::Invalid) => true,
        _ => false,
    }
}

/// Whether the subject entries at index `i` carry the same texts.
pub open spec fn subject_pair_equiv(
    x: Seq<(String, String)>,
    y: Seq<(String, String)>,
    i: int,
) -> bool {
    x[i].0@ == y[i].0@ && x[i].1@ == y[i].1@
}

/// Whether two raw subject constraints carry the same texts.
pub open spec fn subject_raw_equiv(
    a: Option<Vec<(String, String)>>,
    b: Option<Vec<(String, String)>>,
) -> bool {
    match (a, b) {
        (None, None) => true,
        (Some(x), Some(y)) => x@.len() == y@.len() && forall|i: int|
            0 <= i < x@.len() ==> #[trigger] subject_pair_equiv(x@, y@, i),
        _ => false,
    }
}

/// Whether two raw access grants carry the same texts.
pub open spec fn raw_access_equiv(a: RawAccess, b: RawAccess) -> bool {
    a.operation@ == b.operation@ && subject_raw_equiv(a.subject, b.subject)
}

/// Whether the access grants at index `i` carry the same texts.
pub open spec fn access_equiv_at(x: Seq<RawAccess>, y: Seq<RawAccess>, i: int) -> bool {
    raw_access_equiv(x[i], y[i])
}

/// Whether two raw rules carry the same texts throughout.
pub open spec fn raw_acl_equiv(a: RawAcl, b: RawAcl) -> bool {
    &&& a.name@ == b.name@
    &&& opt_str_eq(a.resource_type, b.resource_type)
    &&& raw_path_equiv(a.path, b.path)
    &&& a.accesses@.len() == b.accesses@.len()
    &&& forall|i: int|
        0 <= i < a.accesses@.len() ==> #[trigger] access_equiv_at(a.accesses@, b.accesses@, i)
}

/// Whether the rules at index `i` carry the same texts throughout.
pub open spec fn acl_equiv_at(x: Seq<RawAcl>, y: Seq<RawAcl>, i: int) -> bool {
    raw_acl_equiv(x[i], y[i])
}

/// Whether two raw documents carry the same texts throughout. Everything the
/// compilation below decides is decided by these texts, so equivalent raw
/// documents compile alike.
pub open spec fn raw_config_equiv(a: RawConfig, b: RawConfig) -> bool {
    &&& a.key@ == b.key@
    &&& a.acl@.len() == b.acl@.len()
    &&& forall|i: int| 0 <= i < a.acl@.len() ==> #[trigger] acl_equiv_at(a.acl@, b.acl@, i)
}

/// Relies on `serde_json::from_slice` and the `Value` accessors: whether the
/// bytes decode to a well-shaped policy document. The walk below demands
/// exactly what the piece readers demand, so this decides `json_shape`.
#[verifier::external_body]
fn json_shape_ok(bytes: &[u8]) -> (r: bool)
    ensures
        r == (json_shape(bytes@) is Some),
{
    let check = || -> Option<()> {
        let v: serde_json::Value = serde_json::from_slice(bytes).ok()?;
        v.get("key")?.as_str()?;
        for u in v.get("acl")?.as_array()? {
            u.get("name")?.as_str()?;
            for a in u.get("resource")?.get("accesses")?.as_array()? {
                a.get("operation")?.as_str()?;
                if let Some(s) = a.get("subject") {
                    if !s.is_null() { for (_k, w) in s.as_object()? { w.as_str()?; } }
                }
            }
        }
        Some(())
    };
    check().is_some()
}

/// Relies on `serde_json::from_slice` and `Value::{get, as_str, as_array}`:
/// the signing key and the rule count of a well-shaped document. serde_json
/// decodes deterministically, so the piece belongs to the document's one
/// shape.
#[verifier::external_body]
fn json_root(bytes: &[u8]) -> (r: Option<(String, usize)>)
    ensures
        r is Some && (r->0).0@ == shape_doc(bytes@).key@ && (r->0).1 as nat == shape_doc(
            bytes@,
        ).acl@.len() <== json_shape(bytes@) is Some,
{
    let v: serde_json::Value = serde_json::from_slice(bytes).ok()?;
    let key = v.get("key")?.as_str()?.to_string();
    let n = v.get("acl")?.as_array()?.len();
    Some((key, n))
}

/// Relies on `serde_json::from_slice` and `Value::{get, as_str, as_array}`:
/// the name, resource kind and grant count of the rule at index `i` of a
/// well-shaped document.
#[verifier::external_body]
fn json_rule_at(bytes: &[u8], i: usize) -> (r: Option<(String, Option<String>, usize)>)
    ensures
        r is Some && (r->0).0@ == shape_doc(bytes@).acl@[i as int].name@ && opt_str_eq(
            (r->0).1,
            shape_doc(bytes@).acl@[i as int].resource_type,
        ) && (r->0).2 as nat == shape_doc(bytes@).acl@[i as int].accesses@.len() <== json_shape(
            bytes@,
        ) is Some && (i as int) < shape_doc(bytes@).acl@.len(),
{
    let v: serde_json::Value = serde_json::from_slice(bytes).ok()?;
    let u = v.get("acl")?.as_array()?.get(i)?;
    let name = u.get("name")?.as_str()?.to_string();
    let res = u.get("resource")?;
    let resource_type = res.get("type").and_then(|t| t.as_str()).map(|s| s.to_string());
    let n = res.get("accesses")?.as_array()?.len();
    Some((name, resource_type, n))
}

/// Relies on `serde_json::from_slice` and `Value::{get, as_str}`: the raw
/// resource path of the rule at index `i` of a well-shaped document (a path
/// of any shape other than a string or a `{ "regex": ... }` object reads as
/// invalid and is rejected by compilation).
#[verifier::external_body]
fn json_path_at(bytes: &[u8], i: usize) -> (r: Option<RawPath>)
    ensures
        r is Some && raw_path_equiv(r->0, shape_doc(bytes@).acl@[i as int].path) <== json_shape(
            bytes@,
        ) is Some && (i as int) < shape_doc(bytes@).acl@.len(),
{
    let v: serde_json::Value = serde_json::from_slice(bytes).ok()?;
    let res = v.get("acl")?.as_array()?.get(i)?.get("resource")?;
    let path = match res.get("path") {
        None => RawPath::Invalid,
        Some(p) => match (p.as_str(), p.get("regex").and_then(|x| x.as_str())) {
            (Some(s), _) => RawPath::Text(s.to_string()),
            (None, Some(s)) => RawPath::Pattern(s.to_string()),
            _ => RawPath::Invalid,
        },
    };
    Some(path)
}

/// Relies on `serde_json::from_slice` and `Value::{get, as_str, as_object}`:
/// the operation and subject constraints of grant `j` of rule `i` of a
/// well-shaped document (an absent or null `subject` constrains nothing).
#[verifier::external_body]
fn json_access_at(bytes: &[u8], i: usize, j: usize) -> (r: Option<RawAccess>)
    ensures
        r is Some && raw_access_equiv(r->0, shape_doc(bytes@).acl@[i as int].accesses@[
            j as int
        ]) <== json_shape(bytes@) is Some && (i as int) < shape_doc(bytes@).acl@.len() && (
        j as int) < shape_doc(bytes@).acl@[i as int].accesses@.len(),
{
    let v: serde_json::Value = serde_json::from_slice(bytes).ok()?;
    let a = v.get("acl")?.as_array()?.get(i)?.get("resource")?.get("accesses")?.as_array()?.get(j)?;
    let operation = a.get("operation")?.as_str()?.to_string();
    let subject = match a.get("subject") {
        Some(s) if !s.is_null() => {
            let mut pairs: Vec<(String, String)> = Vec::new();
            for (k, w) in s.as_object()? { pairs.push((k.clone(), w.as_str()?.to_string())); }
            Some(pairs)
        },
        _ => None,
    };
    Some(RawAccess { operation, subject })
}

/// Reads the raw JSON shape of a policy document into plain strings: the
/// result is present exactly when the document's structure is valid, and it
/// carries the texts of `json_shape`'s verdict throughout.
fn decode_config(bytes: &[u8]) -> (r: Option<RawConfig>)
    ensures
        r is Some <==> json_shape(bytes@) is Some,
        r matches Some(raw) ==> json_shape(bytes@) matches Some(cfg) && raw_config_equiv(raw, cfg),
{
    if !json_shape_ok(bytes) {
        return None;
    }
    let ghost cfg = json_shape(bytes@)->0;
    let (key, n) = match json_root(bytes) {
        Some(root) => root,
        None => {
            proof {
                assert(false);
            }
            return None;
        },
    };
    let mut acl: Vec<RawAcl> = Vec::new();
    let mut i: usize = 0;
    while i < n
        invariant
            json_shape(bytes@) is Some,
            cfg == json_shape(bytes@)->0,
            n == cfg.acl@.len(),
            i <= n,
            acl@.len() == i,
            forall|k: int| 0 <= k < i ==> #[trigger] acl_equiv_at(acl@, cfg.acl@, k),
        decreases n - i,
    {
        let (name, resource_type, n_acc) = match json_rule_at(bytes, i) {
            Some(rule) => rule,
            None => {
                proof {
                    assert(false);
                }
                return None;
            },
        };
        let path = match json_path_at(bytes, i) {
            Some(p) => p,
            None => {
                proof {
                    assert(false);
                }
                return None;
            },
        };
        let mut accesses: Vec<RawAccess> = Vec::new();
        let mut j: usize = 0;
        while j < n_acc
            invariant
                json_shape(bytes@) is Some,
                cfg == json_shape(bytes@)->0,
                n == cfg.acl@.len(),
                i < n,
                n_acc == cfg.acl@[i as int].accesses@.len(),
                j <= n_acc,
                accesses@.len() == j,
                forall|k: int|
                    0 <= k < j ==> #[trigger] access_equiv_at(
                        accesses@,
                        cfg.acl@[i as int].accesses@,
                        k,
                    ),
            decreases n_acc - j,
        {
            match json_access_at(bytes, i, j) {
                Some(a) => {
                    let ghost prev = accesses@;
                    let ghost ga = a;
                    accesses.push(a);
                    assert forall|k: int| 0 <= k < j + 1 implies #[trigger] access_equiv_at(
                        accesses@,
                        cfg.acl@[i as int].accesses@,
                        k,
                    ) by {
                        if k < j as int {
                            assert(access_equiv_at(prev, cfg.acl@[i as int].accesses@, k));
                            assert(accesses@[k] == prev[k]);
                        } else {
                            assert(accesses@[k] == ga);
                        }
                    }
                },
                None => {
                    proof {
                        assert(false);
                    }
                    return None;
                },
            }
            j += 1;
        }
        let rule_val = RawAcl { name, resource_type, path, accesses };
        assert(raw_acl_equiv(rule_val, cfg.acl@[i as int]));
        let ghost prev_acl = acl@;
        let ghost grule = rule_val;
        acl.push(rule_val);
        assert forall|k: int| 0 <= k < i + 1 implies #[trigger] acl_equiv_at(
            acl@,
            cfg.acl@,
            k,
        ) by {
            if k < i as int {
                assert(acl_equiv_at(prev_acl, cfg.acl@, k));
                assert(acl@[k] == prev_acl[k]);
            } else {
                assert(acl@[k] == grule);
            }
        }
        i += 1;
    }
    let out = RawConfig { key, acl };
    assert(raw_config_equiv(out, cfg));
    Some(out)
}

// ---------------------------------------------------------------------------
// Verified compilation of the raw shape
// ---------------------------------------------------------------------------

/// The pattern of one path segment, anchored at both ends so that a segment
/// pattern can never reach across a `/` boundary.
pub open spec fn anchored(p: Seq<char>) -> Seq<char> {
    seq!['^'] + p + seq!['$']
}

/// The non-empty segments of a path specification string.
pub open spec fn path_segments(s: Seq<char>) -> Seq<Seq<char>> {
    drop_empty(split_chars(s, '/'))
}

/// Whether the anchored pattern of one path segment compiles.
pub open spec fn path_segment_ok(segs: Seq<Seq<char>>, i: int) -> bool {
    regex_compiles(anchored(segs[i]))
}

/// Whether every anchored segment pattern of a raw path compiles; a raw path
/// of invalid shape compiles to nothing.
pub open spec fn path_compiles(raw: RawPath) -> bool {
    match raw {
        RawPath::Text(_) => true,
        RawPath::Pattern(s) => forall|i: int|
            0 <= i < path_segments(s@).len() ==> #[trigger] path_segment_ok(path_segments(s@), i),
        RawPath::Invalid => false,
    }
}

/// How a compiled path corresponds to its raw form: literal paths keep their
/// non-empty segments verbatim; pattern paths hold one compiled regular
/// expression per non-empty segment, anchored.
pub open spec fn path_parses(raw: RawPath, p: DadgetResourcePath) -> bool {
    match (raw, p) {
        (RawPath::Text(s), DadgetResourcePath::Str(v)) => v.deep_view() == path_segments(s@),
        (RawPath::Pattern(s), DadgetResourcePath::Regex(v)) => {
            &&& v@.len() == path_segments(s@).len()
            &&& forall|i: int|
                0 <= i < v@.len() ==> #[trigger] v@[i]@ == anchored(path_segments(s@)[i])
        },
        _ => false,
    }
}

/// Compiles one resource-path specification.
pub fn compile_path(raw: &RawPath) -> (r: Result<DadgetResourcePath, ConfigError>)
    ensures
        r is Ok <==> path_compiles(*raw),
        r matches Ok(p) ==> path_parses(*raw, p),
        r matches Err(e) ==> e == (if raw is Invalid {
            ConfigError::MalformedConfig
        } else {
            ConfigError::InvalidPattern
        }),
{
    match raw {
        RawPath::Text(s) => Ok(DadgetResourcePath::Str(split_nonempty(s.as_str(), '/'))),
        RawPath::Pattern(s) => {
            let segments = split_nonempty(s.as_str(), '/');
            let mut compiled: Vec<CompiledRegex> = Vec::new();
            let mut i: usize = 0;
            while i < segments.len()
                invariant
                    raw is Pattern && raw->Pattern_0 == *s,
                    segments.deep_view() == path_segments(s@),
                    segments@.len() == path_segments(s@).len(),
                    i <= segments@.len(),
                    compiled@.len() == i,
                    forall|j: int|
                        0 <= j < i ==> #[trigger] compiled@[j]@ == anchored(path_segments(s@)[j]),
                    forall|j: int| 0 <= j < i ==> #[trigger] path_segment_ok(path_segments(s@), j),
                decreases segments@.len() - i,
            {
                let pattern = String::from_str("^").concat(segments[i].as_str()).concat("$");
                proof {
                    reveal_strlit("^");
                    reveal_strlit("$");
                    assert(pattern@ =~= anchored(path_segments(s@)[i as int]));
                }
                match CompiledRegex::compile(pattern.as_str()) {
                    Some(re) => {
                        assert(path_segment_ok(path_segments(s@), i as int));
                        compiled.push(re);
                    },
                    None => {
                        assert(!path_segment_ok(path_segments(s@), i as int));
                        assert(!path_compiles(*raw)) by {
                            if path_compiles(*raw) {
                                assert(path_segment_ok(path_segments((raw->Pattern_0)@), i as int));
                            }
                        }
                        return Err(ConfigError::InvalidPattern);
                    },
                }
                i += 1;
            }
            Ok(DadgetResourcePath::Regex(compiled))
        },
        RawPath::Invalid => Err(ConfigError::MalformedConfig),
    }
}

/// Whether one subject constraint pattern compiles.
pub open spec fn subject_pattern_ok(l: Seq<(String, String)>, i: int) -> bool {
    regex_compiles(l[i].1@)
}

/// Whether every subject constraint pattern of a raw access compiles.
pub open spec fn subject_compiles(raw: Option<Vec<(String, String)>>) -> bool {
    match raw {
        None => true,
        Some(l) => forall|i: int| 0 <= i < l@.len() ==> #[trigger] subject_pattern_ok(l@, i),
    }
}

/// Whether the compiled subject entry at index `i` keeps the raw entry's
/// claim name and pattern text.
pub open spec fn subject_entry_parses(
    r: Seq<(String, String)>,
    c: Seq<(String, CompiledRegex)>,
    i: int,
) -> bool {
    c[i].0@ == r[i].0@ && c[i].1@ == r[i].1@
}

/// How compiled subject constraints correspond to their raw form: same claim
/// names, one compiled (unanchored) pattern per name.
pub open spec fn subject_parses(
    raw: Option<Vec<(String, String)>>,
    s: Option<Vec<(String, CompiledRegex)>>,
) -> bool {
    match (raw, s) {
        (None, None) => true,
        (Some(r), Some(c)) => {
            &&& c@.len() == r@.len()
            &&& forall|i: int| 0 <= i < r@.len() ==> #[trigger] subject_entry_parses(r@, c@, i)
        },
        _ => false,
    }
}

/// How a compiled access grant corresponds to its raw form.
pub open spec fn access_parses(raw: RawAccess, a: Accesses) -> bool {
    a.operation@ == raw.operation@ && subject_parses(raw.subject, a.subject)
}

/// Compiles one access grant, with its optional subject constraints.
pub fn compile_access(raw: &RawAccess) -> (r: Result<Accesses, ConfigError>)
    ensures
        r is Ok <==> subject_compiles(raw.subject),
        r matches Ok(a) ==> access_parses(*raw, a),
        r matches Err(e) ==> e == ConfigError::InvalidPattern,
{
    match raw.subject.as_ref() {
        None => Ok(Accesses { operation: raw.operation.clone(), subject: None }),
        Some(list) => {
            let mut compiled: Vec<(String, CompiledRegex)> = Vec::new();
            let mut i: usize = 0;
            while i < list.len()
                invariant
                    raw.subject is Some && raw.subject->0 == *list,
                    i <= list@.len(),
                    compiled@.len() == i,
                    forall|j: int|
                        0 <= j < i ==> #[trigger] compiled@[j].0@ == list@[j].0@
                            && compiled@[j].1@ == list@[j].1@,
                    forall|j: int| 0 <= j < i ==> #[trigger] subject_pattern_ok(list@, j),
                decreases list@.len() - i,
            {
                let pat: &String = &list[i].1;
                match CompiledRegex::compile(pat.as_str()) {
                    Some(re) => {
                        assert(subject_pattern_ok(list@, i as int));
                        compiled.push((list[i].0.clone(), re));
                    },
                    None => {
                        assert(!subject_pattern_ok(list@, i as int));
                        assert(!subject_compiles(raw.subject)) by {
                            if subject_compiles(raw.subject) {
                                assert(subject_pattern_ok((raw.subject->0)@, i as int));
                            }
                        }
                        return Err(ConfigError::InvalidPattern);
                    },
                }
                i += 1;
            }
            assert forall|j: int| 0 <= j < list@.len() implies #[trigger] subject_entry_parses(
                list@,
                compiled@,
                j,
            ) by {
                assert(compiled@[j].0@ == list@[j].0@ && compiled@[j].1@ == list@[j].1@);
            }
            Ok(Accesses { operation: raw.operation.clone(), subject: Some(compiled) })
        },
    }
}

/// Whether a whole raw rule compiles.
pub open spec fn rule_compiles(raw: RawAcl) -> bool {
    path_compiles(raw.path) && forall|i: int|
        0 <= i < raw.accesses@.len() ==> subject_compiles(#[trigger] raw.accesses@[i].subject)
}

/// Whether the views of two optional strings agree.
pub open spec fn opt_str_eq(a: Option<String>, b: Option<String>) -> bool {
    match (a, b) {
        (None, None) => true,
        (Some(x), Some(y)) => x@ == y@,
        _ => false,
    }
}

/// How a compiled rule corresponds to its raw form.
pub open spec fn rule_parses(raw: RawAcl, acl: Acl) -> bool {
    &&& acl.name@ == raw.name@
    &&& opt_str_eq(acl.resource.resource_type, raw.resource_type)
    &&& path_parses(raw.path, acl.resource.path)
    &&& acl.resource.accesses@.len() == raw.accesses@.len()
    &&& forall|i: int|
        0 <= i < raw.accesses@.len() ==> access_parses(
            raw.accesses@[i],
            #[trigger] acl.resource.accesses@[i],
        )
}

fn compile_rule(raw: &RawAcl) -> (r: Result<Acl, ConfigError>)
    ensures
        r is Ok <==> rule_compiles(*raw),
        r matches Ok(acl) ==> rule_parses(*raw, acl),
{
    let path = match compile_path(&raw.path) {
        Ok(p) => p,
        Err(e) => {
            return Err(e);
        },
    };
    let mut accesses: Vec<Accesses> = Vec::new();
    let mut i: usize = 0;
    while i < raw.accesses.len()
        invariant
            i <= raw.accesses@.len(),
            accesses@.len() == i,
            forall|j: int|
                0 <= j < i ==> access_parses(raw.accesses@[j], #[trigger] accesses@[j]),
            forall|j: int| 0 <= j < i ==> subject_compiles(#[trigger] raw.accesses@[j].subject),
        decreases raw.accesses@.len() - i,
    {
        match compile_access(&raw.accesses[i]) {
            Ok(a) => accesses.push(a),
            Err(e) => {
                return Err(e);
            },
        }
        i += 1;
    }
    let resource_type = match &raw.resource_type {
        Some(t) => Some(t.clone()),
        None => None,
    };
    Ok(
        Acl {
            name: raw.name.clone(),
            resource: Resource { resource_type, path, accesses },
        },
    )
}

/// Whether a whole raw document compiles.
pub open spec fn config_compiles(raw: RawConfig) -> bool {
    forall|i: int| 0 <= i < raw.acl@.len() ==> rule_compiles(#[trigger] raw.acl@[i])
}

/// How a compiled document corresponds to its raw form: the key verbatim and
/// one compiled rule per raw rule, in document order.
pub open spec fn config_parses(raw: RawConfig, cfg: Config) -> bool {
    &&& cfg.key@ == raw.key@
    &&& cfg.acl@.len() == raw.acl@.len()
    &&& forall|i: int|
        0 <= i < raw.acl@.len() ==> rule_parses(raw.acl@[i], #[trigger] cfg.acl@[i])
}

/// Compiles a raw document; rejection of any part rejects the whole.
pub fn parse_config(raw: &RawConfig) -> (r: Result<Config, ConfigError>)
    ensures
        r is Ok <==> config_compiles(*raw),
        r matches Ok(cfg) ==> config_parses(*raw, cfg),
        r matches Err(e) ==> e == ConfigError::MalformedConfig,
{
    let mut acl: Vec<Acl> = Vec::new();
    let mut i: usize = 0;
    while i < raw.acl.len()
        invariant
            i <= raw.acl@.len(),
            acl@.len() == i,
            forall|j: int| 0 <= j < i ==> rule_parses(raw.acl@[j], #[trigger] acl@[j]),
            forall|j: int| 0 <= j < i ==> rule_compiles(#[trigger] raw.acl@[j]),
        decreases raw.acl@.len() - i,
    {
        match compile_rule(&raw.acl[i]) {
            Ok(r) => acl.push(r),
            Err(_) => {
                return Err(ConfigError::MalformedConfig);
            },
        }
        i += 1;
    }
    Ok(Config { key: raw.key.clone(), acl })
}

proof fn lemma_equiv_path(a: RawPath, b: RawPath)
    requires
        raw_path_equiv(a, b),
    ensures
        path_compiles(a) == path_compiles(b),
        forall|p: DadgetResourcePath| #[trigger] path_parses(a, p) == path_parses(b, p),
{
    match (a, b) {
        (RawPath::Text(x), RawPath::Text(y)) => {
            assert(path_segments(x@) == path_segments(y@));
        },
        (RawPath::Pattern(x), RawPath::Pattern(y)) => {
            assert(path_segments(x@) == path_segments(y@));
        },
        _ => {},
    }
}

proof fn lemma_equiv_subject_parses(
    sa: Option<Vec<(String, String)>>,
    sb: Option<Vec<(String, String)>>,
    sc: Option<Vec<(String, CompiledRegex)>>,
)
    requires
        subject_raw_equiv(sa, sb),
    ensures
        subject_parses(sa, sc) == subject_parses(sb, sc),
{
    if sa is Some && sc is Some {
        let la = sa->0;
        let lb = sb->0;
        let c = sc->0;
        assert(sb is Some);
        assert(la@.len() == lb@.len());
        if subject_parses(sa, sc) {
            assert forall|i: int| 0 <= i < lb@.len() implies #[trigger] subject_entry_parses(
                lb@,
                c@,
                i,
            ) by {
                assert(subject_pair_equiv(la@, lb@, i));
                assert(subject_entry_parses(la@, c@, i));
            }
            assert(subject_parses(sb, sc));
        }
        if subject_parses(sb, sc) {
            assert(c@.len() == la@.len());
            assert forall|i: int| 0 <= i < la@.len() implies #[trigger] subject_entry_parses(
                la@,
                c@,
                i,
            ) by {
                assert(subject_pair_equiv(la@, lb@, i));
                assert(subject_entry_parses(lb@, c@, i));
            }
            assert(subject_parses(sa, sc));
        }
    }
}

proof fn lemma_equiv_access(a: RawAccess, b: RawAccess)
    requires
        raw_access_equiv(a, b),
    ensures
        subject_compiles(a.subject) == subject_compiles(b.subject),
        forall|x: Accesses| #[trigger] access_parses(a, x) == access_parses(b, x),
{
    if a.subject is Some {
        let la = a.subject->0;
        let lb = b.subject->0;
        assert forall|i: int|
            0 <= i < la@.len() implies #[trigger] subject_pattern_ok(la@, i) == subject_pattern_ok(
            lb@,
            i,
        ) by {
            assert(subject_pair_equiv(la@, lb@, i));
        }
        if subject_compiles(a.subject) {
            assert forall|i: int| 0 <= i < lb@.len() implies #[trigger] subject_pattern_ok(
                lb@,
                i,
            ) by {
                assert(subject_pattern_ok(la@, i));
            }
            assert(subject_compiles(b.subject));
        }
        if subject_compiles(b.subject) {
            assert forall|i: int| 0 <= i < la@.len() implies #[trigger] subject_pattern_ok(
                la@,
                i,
            ) by {
                assert(subject_pattern_ok(lb@, i));
            }
            assert(subject_compiles(a.subject));
        }
    }
    assert forall|x: Accesses| #[trigger] access_parses(a, x) == access_parses(b, x) by {
        lemma_equiv_subject_parses(a.subject, b.subject, x.subject);
    }
}

proof fn lemma_equiv_rule(a: RawAcl, b: RawAcl)
    requires
        raw_acl_equiv(a, b),
    ensures
        rule_compiles(a) == rule_compiles(b),
        forall|r: Acl| #[trigger] rule_parses(a, r) == rule_parses(b, r),
{
    lemma_equiv_path(a.path, b.path);
    assert forall|i: int|
        0 <= i < a.accesses@.len() implies subject_compiles(#[trigger] a.accesses@[i].subject)
        == subject_compiles(b.accesses@[i].subject) && (forall|x: Accesses|
        #[trigger] access_parses(a.accesses@[i], x) == access_parses(b.accesses@[i], x)) by {
        assert(access_equiv_at(a.accesses@, b.accesses@, i));
        lemma_equiv_access(a.accesses@[i], b.accesses@[i]);
    }
    if rule_compiles(a) {
        assert forall|i: int| 0 <= i < b.accesses@.len() implies subject_compiles(
            #[trigger] b.accesses@[i].subject,
        ) by {
            assert(subject_compiles(a.accesses@[i].subject));
        }
        assert(rule_compiles(b));
    }
    if rule_compiles(b) {
        assert forall|i: int| 0 <= i < a.accesses@.len() implies subject_compiles(
            #[trigger] a.accesses@[i].subject,
        ) by {
            assert(subject_compiles(b.accesses@[i].subject));
        }
        assert(rule_compiles(a));
    }
    assert forall|r: Acl| #[trigger] rule_parses(a, r) == rule_parses(b, r) by {
        assert(path_parses(a.path, r.resource.path) == path_parses(b.path, r.resource.path));
        if rule_parses(a, r) {
            assert forall|i: int|
                0 <= i < b.accesses@.len() implies access_parses(
                b.accesses@[i],
                #[trigger] r.resource.accesses@[i],
            ) by {
                assert(access_parses(a.accesses@[i], r.resource.accesses@[i]));
                assert(access_parses(a.accesses@[i], r.resource.accesses@[i]) == access_parses(
                    b.accesses@[i],
                    r.resource.accesses@[i],
                ));
            }
            assert(rule_parses(b, r));
        }
        if rule_parses(b, r) {
            assert forall|i: int|
                0 <= i < a.accesses@.len() implies access_parses(
                a.accesses@[i],
                #[trigger] r.resource.accesses@[i],
            ) by {
                assert(access_parses(b.accesses@[i], r.resource.accesses@[i]));
                assert(access_parses(a.accesses@[i], r.resource.accesses@[i]) == access_parses(
                    b.accesses@[i],
                    r.resource.accesses@[i],
                ));
            }
            assert(rule_parses(a, r));
        }
    }
}

/// Raw documents that carry the same texts compile alike and compile to the
/// same documents: compilation depends on the texts alone.
proof fn lemma_equiv_config(a: RawConfig, b: RawConfig)
    requires
        raw_config_equiv(a, b),
    ensures
        config_compiles(a) == config_compiles(b),
        forall|c: Config| #[trigger] config_parses(a, c) == config_parses(b, c),
{
    assert forall|i: int|
        0 <= i < a.acl@.len() implies rule_compiles(#[trigger] a.acl@[i]) == rule_compiles(
        b.acl@[i],
    ) && (forall|r: Acl| #[trigger] rule_parses(a.acl@[i], r) == rule_parses(b.acl@[i], r)) by {
        assert(acl_equiv_at(a.acl@, b.acl@, i));
        lemma_equiv_rule(a.acl@[i], b.acl@[i]);
    }
    if config_compiles(a) {
        assert forall|i: int| 0 <= i < b.acl@.len() implies rule_compiles(#[trigger] b.acl@[i]) by {
            assert(rule_compiles(a.acl@[i]));
        }
        assert(config_compiles(b));
    }
    if config_compiles(b) {
        assert forall|i: int| 0 <= i < a.acl@.len() implies rule_compiles(#[trigger] a.acl@[i]) by {
            assert(rule_compiles(b.acl@[i]));
        }
        assert(config_compiles(a));
    }
    assert forall|c: Config| #[trigger] config_parses(a, c) == config_parses(b, c) by {
        if config_parses(a, c) {
            assert forall|i: int|
                0 <= i < b.acl@.len() implies rule_parses(b.acl@[i], #[trigger] c.acl@[i]) by {
                assert(rule_parses(a.acl@[i], c.acl@[i]));
                assert(rule_parses(a.acl@[i], c.acl@[i]) == rule_parses(b.acl@[i], c.acl@[i]));
            }
            assert(config_parses(b, c));
        }
        if config_parses(b, c) {
            assert forall|i: int|
                0 <= i < a.acl@.len() implies rule_parses(a.acl@[i], #[trigger] c.acl@[i]) by {
                assert(rule_parses(b.acl@[i], c.acl@[i]));
                assert(rule_parses(a.acl@[i], c.acl@[i]) == rule_parses(b.acl@[i], c.acl@[i]));
            }
            assert(config_parses(a, c));
        }
    }
}

/// Parses a policy document from its source bytes: reads the JSON shape,
/// then compiles paths and subject constraints. A document is accepted
/// exactly when the bytes decode to a valid structure and every pattern
/// compiles; the result is the compilation of exactly the document the bytes
/// hold, and nothing of a rejected document is ever exposed.
pub fn parse_policy(bytes: &[u8]) -> (r: Result<Config, ConfigError>)
    ensures
        r is Ok <==> (json_shape(bytes@) matches Some(raw) && config_compiles(raw)),
        r matches Ok(cfg) ==> config_parses(json_shape(bytes@)->0, cfg),
        r matches Err(e) ==> e == ConfigError::MalformedConfig,
{
    match decode_config(bytes) {
        None => Err(ConfigError::MalformedConfig),
        Some(raw) => {
            proof {
                lemma_equiv_config(raw, json_shape(bytes@)->0);
            }
            parse_config(&raw)
        },
    }
}

} // verus!
