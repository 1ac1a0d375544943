//! The authorization decision engine.
//!
//! `authenticate` verifies a token against the current policy document's
//! signing key; `authorize` additionally resolves the topic to a resource and
//! walks the access-control list in document order. Every allowed decision
//! carries the audit record to be emitted; a denial carries nothing, so no
//! audit record exists for a failed decision. Callers observe only allow or
//! a uniform denial.

use vstd::prelude::*;
use vstd::string::StringExecFns;
use crate::claims::{claim_str, spec_sub, sub_of, verify_token, ClaimSet};
use crate::config::{path_matches, Accesses, Acl, Config};
use crate::pattern::regex_match;
use crate::store::ConfigInfo;
use crate::text::{eq_ignore_ascii_case, str_eq, str_eq_ignore_ascii_case};
use crate::topic::{parse_topic, topic_address};

verus! {

/// The operation a caller requests on a topic.
#[derive(Clone, Copy, Debug, PartialEq, Eq, Structural)]
pub enum Operation {
    Read,
    Write,
    Subscribe,
    /// Any operation the broker reports that is none of the three above.
    Other,
}

/// The uniform denial outcome: no detail of why is ever returned.
#[derive(Clone, Copy, Debug, PartialEq, Eq, Structural)]
pub struct Denied;

/// An audit record for an allowed decision; the sink attaches the timestamp
/// when the record is written out.
pub struct AuditRecord {
    pub message: String,
}

/// Whether a grant's operation string covers the requested operation:
/// `READ`/`WRITE` compare case-insensitively, and `*` covers everything.
pub open spec fn op_matches(op: Seq<char>, access: Operation) -> bool {
    ||| (access is Read && eq_ignore_ascii_case(op, "READ"@))
    ||| (access is Write && eq_ignore_ascii_case(op, "WRITE"@))
    ||| op == "*"@
}

/// Whether the requested operation matches a grant's operation string.
pub fn match_access(config_access: &Accesses, access: Operation) -> (r: bool)
    ensures
        r == op_matches(config_access.operation@, access),
{
    let op = config_access.operation.as_str();
    let named = match access {
        Operation::Read => str_eq_ignore_ascii_case(op, "READ"),
        Operation::Write => str_eq_ignore_ascii_case(op, "WRITE"),
        _ => false,
    };
    named || str_eq(op, "*")
}

/// Whether one subject constraint holds of the claims: the named claim is
/// present, is a string, and its text matches the constraint's pattern
/// (unanchored — a match anywhere in the text suffices).
pub open spec fn subject_entry_matches(
    l: Seq<(String, crate::pattern::CompiledRegex)>,
    i: int,
    cs: ClaimSet,
) -> bool {
    match claim_str(cs, l[i].0@) {
        Some(text) => regex_match(l[i].1@, text),
        None => false,
    }
}

/// Whether a grant's subject constraints hold of the claims: an absent
/// subject constrains nothing; otherwise every constrained claim must match.
pub open spec fn subject_matches(cs: ClaimSet, subject: Option<Vec<(String, crate::pattern::CompiledRegex)>>) -> bool {
    match subject {
        None => true,
        Some(l) => forall|i: int| 0 <= i < l@.len() ==> #[trigger] subject_entry_matches(l@, i, cs),
    }
}

/// Whether the claims satisfy a grant's subject constraints.
pub fn match_claims(config_access: &Accesses, claims: &ClaimSet) -> (r: bool)
    ensures
        r == subject_matches(*claims, config_access.subject),
{
    match config_access.subject.as_ref() {
        None => true,
        Some(list) => {
            let mut i: usize = 0;
            while i < list.len()
                invariant
                    config_access.subject is Some && config_access.subject->0 == *list,
                    i <= list@.len(),
                    forall|j: int| 0 <= j < i ==> #[trigger] subject_entry_matches(list@, j, *claims),
                decreases list@.len() - i,
            {
                let matched = match crate::claims::claim_string(claims, list[i].0.as_str()) {
                    Some(text) => list[i].1.is_match(text.as_str()),
                    None => false,
                };
                if !matched {
                    assert(!subject_entry_matches(list@, i as int, *claims));
                    assert(!subject_matches(*claims, config_access.subject)) by {
                        if subject_matches(*claims, config_access.subject) {
                            assert(subject_entry_matches(
                                (config_access.subject->0)@,
                                i as int,
                                *claims,
                            ));
                        }
                    }
                    return false;
                }
                assert(subject_entry_matches(list@, i as int, *claims));
                i += 1;
            }
            true
        },
    }
}

/// Whether one grant of a rule applies: its operation covers the request and
/// its subject constraints hold of the claims.
pub open spec fn grant_matches(
    accesses: Seq<Accesses>,
    i: int,
    cs: ClaimSet,
    access: Operation,
) -> bool {
    op_matches(accesses[i].operation@, access) && subject_matches(cs, accesses[i].subject)
}

/// Whether a rule's grant list allows the request: subscription is always
/// allowed once a rule's resource matched; read and write need some grant
/// whose operation and subject both match.
pub open spec fn accesses_allow(cs: ClaimSet, accesses: Seq<Accesses>, access: Operation) -> bool {
    access is Subscribe || exists|i: int|
        0 <= i < accesses.len() && #[trigger] grant_matches(accesses, i, cs, access)
}

/// Evaluates a rule's grant list against the claims and requested operation.
pub fn check_accesses(claims: &ClaimSet, accesses: &Vec<Accesses>, access: Operation) -> (r: bool)
    ensures
        r == accesses_allow(*claims, accesses@, access),
{
    if matches!(access, Operation::Subscribe) {
        return true;
    }
    let mut i: usize = 0;
    while i < accesses.len()
        invariant
            i <= accesses@.len(),
            !(access is Subscribe),
            forall|j: int| 0 <= j < i ==> !(#[trigger] grant_matches(accesses@, j, *claims, access)),
        decreases accesses@.len() - i,
    {
        if match_access(&accesses[i], access) && match_claims(&accesses[i], claims) {
            assert(grant_matches(accesses@, i as int, *claims, access));
            return true;
        }
        assert(!grant_matches(accesses@, i as int, *claims, access));
        i += 1;
    }
    false
}

/// Whether a rule's resource is of the kind the engine decides on.
pub open spec fn is_dadget(t: Option<String>) -> bool {
    t is Some && t->0@ == "dadget"@
}

/// Whether the rule at index `i` allows the request: it is a `dadget` rule,
/// its resource path matches the addressed components, and its grants allow
/// the operation for these claims.
pub open spec fn rule_allows(
    acl: Seq<Acl>,
    i: int,
    cs: ClaimSet,
    db: Seq<char>,
    subset: Option<Seq<char>>,
    access: Operation,
) -> bool {
    &&& is_dadget(acl[i].resource.resource_type)
    &&& path_matches(acl[i].resource.path, db, subset)
    &&& accesses_allow(cs, acl[i].resource.accesses@, access)
}

/// Whether some rule of the document allows the request. The scan runs in
/// document order and stops at the first rule that produces a matching
/// grant; as the outcome is a single allow/deny, that first match settles
/// the same decision this predicate describes.
pub open spec fn acl_allows(
    cfg: Config,
    cs: ClaimSet,
    db: Seq<char>,
    subset: Option<Seq<char>>,
    access: Operation,
) -> bool {
    exists|i: int|
        0 <= i < cfg.acl@.len() && #[trigger] rule_allows(cfg.acl@, i, cs, db, subset, access)
}

/// The mode word an audit record carries for each operation.
pub open spec fn mode_word(access: Operation) -> Seq<char> {
    match access {
        Operation::Read => "READ"@,
        Operation::Write => "WRITE"@,
        Operation::Subscribe => "SUBSCRIBE"@,
        Operation::Other => "ANOTHER"@,
    }
}

/// The audit message of an allowed request: the mode word and the subject.
pub open spec fn audit_message(access: Operation, sub: Seq<char>) -> Seq<char> {
    mode_word(access) + " "@ + sub
}

fn mode_word_str(access: Operation) -> (r: &'static str)
    ensures
        r@ == mode_word(access),
{
    match access {
        Operation::Read => "READ",
        Operation::Write => "WRITE",
        Operation::Subscribe => "SUBSCRIBE",
        Operation::Other => "ANOTHER",
    }
}

/// Decides a request given already-verified claims: resolves the topic and
/// walks the rules in document order. Allowed exactly when the topic
/// addresses a resource and some rule allows the request; an allowed
/// decision carries its audit record.
pub fn acl_check(config: &Config, claims: &ClaimSet, topic: &str, access: Operation) -> (r: Result<
    AuditRecord,
    Denied,
>)
    ensures
        r is Ok <==> (match topic_address(topic@) {
            Some(addr) => acl_allows(*config, *claims, addr.0, addr.1, access),
            None => false,
        }),
        r matches Ok(rec) ==> rec.message@ == audit_message(access, spec_sub(*claims)),
{
    let addr = match parse_topic(topic) {
        Some(a) => a,
        None => {
            return Err(Denied);
        },
    };
    let ghost db = (topic_address(topic@)->0).0;
    let ghost subset = (topic_address(topic@)->0).1;
    assert(addr.db_name@ == db && addr.subset_name.deep_view() == subset);
    let mut i: usize = 0;
    while i < config.acl.len()
        invariant
            i <= config.acl@.len(),
            topic_address(topic@) is Some,
            db == (topic_address(topic@)->0).0,
            subset == (topic_address(topic@)->0).1,
            addr.db_name@ == db,
            addr.subset_name.deep_view() == subset,
            forall|j: int|
                0 <= j < i ==> !(#[trigger] rule_allows(
                    config.acl@,
                    j,
                    *claims,
                    db,
                    subset,
                    access,
                )),
        decreases config.acl@.len() - i,
    {
        let rule = &config.acl[i];
        let type_ok = match rule.resource.resource_type.as_ref() {
            Some(t) => str_eq(t.as_str(), "dadget"),
            None => false,
        };
        if type_ok {
            let subset_ref = match addr.subset_name.as_ref() {
                Some(s) => Some(s.as_str()),
                None => None,
            };
            assert(subset_ref.deep_view() == subset);
            if rule.resource.path.check_path(addr.db_name.as_str(), subset_ref) {
                if check_accesses(claims, &rule.resource.accesses, access) {
                    assert(rule_allows(config.acl@, i as int, *claims, db, subset, access));
                    let message = String::from_str(mode_word_str(access)).concat(" ").concat(
                        sub_of(claims).as_str(),
                    );
                    assert(message@ == audit_message(access, spec_sub(*claims)));
                    return Ok(AuditRecord { message });
                }
            }
        }
        assert(!rule_allows(config.acl@, i as int, *claims, db, subset, access));
        i += 1;
    }
    assert(!acl_allows(*config, *claims, db, subset, access)) by {
        if acl_allows(*config, *claims, db, subset, access) {
            let k = choose|k: int|
                0 <= k < config.acl@.len() && rule_allows(config.acl@, k, *claims, db, subset, access);
            assert(!rule_allows(config.acl@, k, *claims, db, subset, access));
        }
    }
    Err(Denied)
}

/// Authenticates a bearer token against the current policy generation:
/// denied when no document has ever parsed (fail-closed) or when the token
/// does not verify; an authenticated subject carries its `AUTH` audit
/// record. Verification consults the clock, so which tokens verify is not
/// pinned here; every outcome is handled.
pub fn authenticate(config_info: &ConfigInfo, token: &str) -> (r: Result<
    (ClaimSet, AuditRecord),
    Denied,
>)
    ensures
        config_info.config is None ==> r is Err,
        r matches Ok((cs, rec)) ==> config_info.config is Some && rec.message@ == "AUTH "@
            + spec_sub(cs),
{
    let config = match config_info.config.as_ref() {
        Some(c) => c,
        None => {
            return Err(Denied);
        },
    };
    match verify_token(token, config.key.as_str()) {
        Some(cs) => {
            let message = String::from_str("AUTH ").concat(sub_of(&cs).as_str());
            Ok((cs, AuditRecord { message }))
        },
        None => Err(Denied),
    }
}

/// Authorizes a request: denied when no document has ever parsed, when the
/// token does not verify, when the topic addresses no resource, or when no
/// rule allows the request. An allowed decision carries its audit record,
/// and is tied to a claim set the rules allow for this topic and operation:
/// the record's message reports that claim set's subject. Which claim set a
/// token carries is the verifier's outcome and is not pinned here.
pub fn authorize(config_info: &ConfigInfo, token: &str, topic: &str, access: Operation) -> (r:
    Result<AuditRecord, Denied>)
    ensures
        config_info.config is None ==> r is Err,
        topic_address(topic@) is None ==> r is Err,
        r matches Ok(rec) ==> config_info.config is Some && exists|cs: ClaimSet|
            #[trigger] acl_allows(
                config_info.config->0,
                cs,
                (topic_address(topic@)->0).0,
                (topic_address(topic@)->0).1,
                access,
            ) && rec.message@ == audit_message(access, spec_sub(cs)),
{
    let config = match config_info.config.as_ref() {
        Some(c) => c,
        None => {
            return Err(Denied);
        },
    };
    match verify_token(token, config.key.as_str()) {
        Some(cs) => acl_check(config, &cs, topic, access),
        None => Err(Denied),
    }
}

/// First-match-wins: rules are evaluated in document order, so once the rule
/// at index `i` produces a matching grant, the decision is allow no matter
/// what stands after it — two documents that agree up to and including that
/// rule decide alike, however their remaining rules differ.
pub proof fn lemma_first_match_wins(
    cfg1: Config,
    cfg2: Config,
    i: int,
    cs: ClaimSet,
    db: Seq<char>,
    subset: Option<Seq<char>>,
    access: Operation,
)
    requires
        0 <= i < cfg1.acl@.len(),
        i < cfg2.acl@.len(),
        cfg1.acl@[i] == cfg2.acl@[i],
        rule_allows(cfg1.acl@, i, cs, db, subset, access),
    ensures
        acl_allows(cfg1, cs, db, subset, access),
        acl_allows(cfg2, cs, db, subset, access),
{
    assert(rule_allows(cfg2.acl@, i, cs, db, subset, access));
}

/// Subscription is independent of operation and subject constraints: once a
/// token is authenticated, a subscribe request is allowed exactly when some
/// `dadget` rule's resource path matches the topic — whatever the grants of
/// that rule say.
pub proof fn lemma_subscribe_ignores_grants(
    cfg: Config,
    cs1: ClaimSet,
    cs2: ClaimSet,
    db: Seq<char>,
    subset: Option<Seq<char>>,
)
    ensures
        acl_allows(cfg, cs1, db, subset, Operation::Subscribe) <==> exists|i: int|
            0 <= i < cfg.acl@.len() && (#[trigger] is_dadget(cfg.acl@[i].resource.resource_type))
                && path_matches(cfg.acl@[i].resource.path, db, subset),
        acl_allows(cfg, cs1, db, subset, Operation::Subscribe) == acl_allows(
            cfg,
            cs2,
            db,
            subset,
            Operation::Subscribe,
        ),
{
    assert forall|i: int| 0 <= i < cfg.acl@.len() implies (
        #[trigger] rule_allows(cfg.acl@, i, cs1, db, subset, Operation::Subscribe)
            == (is_dadget(cfg.acl@[i].resource.resource_type) && path_matches(
                cfg.acl@[i].resource.path,
                db,
                subset,
            ))
    ) by {
        assert(accesses_allow(cs1, cfg.acl@[i].resource.accesses@, Operation::Subscribe));
    }
    assert forall|i: int| 0 <= i < cfg.acl@.len() implies (
        #[trigger] rule_allows(cfg.acl@, i, cs2, db, subset, Operation::Subscribe)
            == (is_dadget(cfg.acl@[i].resource.resource_type) && path_matches(
                cfg.acl@[i].resource.path,
                db,
                subset,
            ))
    ) by {
        assert(accesses_allow(cs2, cfg.acl@[i].resource.accesses@, Operation::Subscribe));
    }
    if acl_allows(cfg, cs1, db, subset, Operation::Subscribe) {
        let k = choose|k: int|
            0 <= k < cfg.acl@.len() && rule_allows(cfg.acl@, k, cs1, db, subset, Operation::Subscribe);
        assert(is_dadget(cfg.acl@[k].resource.resource_type) && path_matches(
            cfg.acl@[k].resource.path,
            db,
            subset,
        ));
        assert(rule_allows(cfg.acl@, k, cs2, db, subset, Operation::Subscribe));
    }
    if acl_allows(cfg, cs2, db, subset, Operation::Subscribe) {
        let k = choose|k: int|
            0 <= k < cfg.acl@.len() && rule_allows(cfg.acl@, k, cs2, db, subset, Operation::Subscribe);
        assert(rule_allows(cfg.acl@, k, cs1, db, subset, Operation::Subscribe));
    }
    if exists|i: int|
        0 <= i < cfg.acl@.len() && (#[trigger] is_dadget(cfg.acl@[i].resource.resource_type))
            && path_matches(cfg.acl@[i].resource.path, db, subset) {
        let k = choose|k: int|
            0 <= k < cfg.acl@.len() && (#[trigger] is_dadget(cfg.acl@[k].resource.resource_type))
                && path_matches(cfg.acl@[k].resource.path, db, subset);
        assert(rule_allows(cfg.acl@, k, cs1, db, subset, Operation::Subscribe));
    }
}

} // verus!
