//! Decoded token claims.
//!
//! Token verification produces a claim set: a mapping from claim names to
//! values. Subject matching is defined only for string-valued claims, so the
//! claim set keeps each value either as its text or as an opaque marker for
//! any non-string value.

use vstd::prelude::*;
use vstd::string::StringExecFns;

verus! {

/// A claim's value: its text when the claim is a string, `Other` for any
/// non-string value (number, boolean, object, array or null).
pub enum ClaimValue {
    Str(String),
    Other,
}

/// A verified token's claims, in the order the verifier handed them out.
pub struct ClaimSet {
    pub entries: Vec<(String, ClaimValue)>,
}

/// The value of the first entry with this name, if any.
pub open spec fn claim_lookup(entries: Seq<(String, ClaimValue)>, key: Seq<char>) -> Option<
    ClaimValue,
>
    decreases entries.len(),
{
    if entries.len() == 0 {
        None
    } else if entries[0].0@ == key {
        Some(entries[0].1)
    } else {
        claim_lookup(entries.drop_first(), key)
    }
}

/// The text of the named claim, when it is present and is a string.
pub open spec fn claim_str(cs: ClaimSet, key: Seq<char>) -> Option<Seq<char>> {
    match claim_lookup(cs.entries@, key) {
        Some(ClaimValue::Str(s)) => Some(s@),
        _ => None,
    }
}

fn lookup_from(entries: &Vec<(String, ClaimValue)>, i: usize, key: &str) -> (r: Option<String>)
    requires
        i <= entries@.len(),
    ensures
        ({
            let found = claim_lookup(entries@.skip(i as int), key@);
            match r {
                Some(s) => found == Some(ClaimValue::Str(s)),
                None => !(found matches Some(ClaimValue::Str(_))),
            }
        }),
    decreases entries@.len() - i,
{
    if i == entries.len() {
        return None;
    }
    assert(entries@.skip(i as int)[0] == entries@[i as int]);
    if crate::text::str_eq(entries[i].0.as_str(), key) {
        match &entries[i].1 {
            ClaimValue::Str(s) => Some(s.clone()),
            ClaimValue::Other => None,
        }
    } else {
        assert(entries@.skip(i as int).drop_first() =~= entries@.skip(i as int + 1));
        lookup_from(entries, i + 1, key)
    }
}

/// Looks the named claim up, returning its text when it is a string.
pub fn claim_string(cs: &ClaimSet, key: &str) -> (r: Option<String>)
    ensures
        r is Some <==> claim_str(*cs, key@) is Some,
        r is Some ==> Some(r->0@) == claim_str(*cs, key@),
{
    assert(cs.entries@.skip(0) =~= cs.entries@);
    lookup_from(&cs.entries, 0, key)
}

/// The subject named by the claims: the `sub` claim's text, or `no sub` when
/// it is absent or not a string.
pub open spec fn spec_sub(cs: ClaimSet) -> Seq<char> {
    match claim_str(cs, "sub"@) {
        Some(s) => s,
        None => "no sub"@,
    }
}

/// The subject of a claim set, for audit records.
pub fn sub_of(cs: &ClaimSet) -> (r: String)
    ensures
        r@ == spec_sub(*cs),
{
    match claim_string(cs, "sub") {
        Some(s) => s,
        None => String::from_str("no sub"),
    }
}

/// Relies on `jsonwebtoken::decode` with algorithm HS256: it verifies the
/// token's signature against the key and its registered claims (among them
/// `exp`, against the clock) and hands back the decoded claim object. The
/// outcome depends on the current time, so nothing is promised of it; every
/// caller handles both outcomes.
#[verifier::external_body]
pub fn verify_token(token: &str, key: &str) -> (r: Option<ClaimSet>) {
    let decoding_key = jsonwebtoken::DecodingKey::from_secret(key.as_bytes());
    let validation = jsonwebtoken::Validation::new(jsonwebtoken::Algorithm::HS256);
    let data = jsonwebtoken::decode::<serde_json::Value>(token, &decoding_key, &validation).ok()?;
    let entries = match data.claims.as_object() {
        Some(obj) => obj
            .iter()
            .map(|(k, v)| match v.as_str() {
                Some(s) => (k.clone(), ClaimValue::Str(s.to_string())),
                None => (k.clone(), ClaimValue::Other),
            })
            .collect(),
        None => Vec::new(),
    };
    Some(ClaimSet { entries })
}

} // verus!
