use jsonwebtoken::{encode, EncodingKey, Header};
use pubsub_acl::auth::{authenticate, authorize, Operation};
use pubsub_acl::config::parse_policy;
use pubsub_acl::store::ConfigInfo;
use serde_json::Value;
use std::time::{SystemTime, UNIX_EPOCH};

const KEY: &str = "q6r2MewgJmLc";

fn unix_time() -> u64 {
    SystemTime::now().duration_since(UNIX_EPOCH).expect("clock before epoch").as_secs()
}

fn claims(entries: &[(&str, Value)]) -> Value {
    let mut map = serde_json::Map::new();
    for (k, v) in entries {
        map.insert(k.to_string(), v.clone());
    }
    map.insert("exp".to_string(), Value::from(unix_time() + 600));
    Value::Object(map)
}

fn token_for(claims_value: &Value) -> String {
    encode(&Header::default(), claims_value, &EncodingKey::from_secret(KEY.as_bytes()))
        .expect("token should encode")
}

fn info_for(policy: &str) -> ConfigInfo {
    let cfg = parse_policy(policy.as_bytes()).expect("policy should parse");
    ConfigInfo { last_check_time: 0, file_time: 0, config: Some(cfg) }
}

fn example_policy() -> ConfigInfo {
    info_for(
        r#"{"key":"q6r2MewgJmLc","acl":[
            {"name":"r1","resource":{"type":"dadget","path":"db2","accesses":[
                {"operation":"write","subject":{"sub":".*@example\\.jp"}}]}},
            {"name":"r2","resource":{"type":"dadget","path":{"regex":"dbname1/sub.*"},"accesses":[
                {"operation":"read","subject":{"sub":"aaa@example\\.jp"}}]}}
        ]}"#,
    )
}

#[test]
fn matching_rule_grants_write_and_reports_the_subject() {
    let info = example_policy();
    let token = token_for(&claims(&[("sub", Value::from("xxxx@example.jp"))]));
    let record = authorize(&info, &token, "/m/d/db2/transaction", Operation::Write)
        .expect("write on db2 should be allowed");
    assert_eq!(record.message, "WRITE xxxx@example.jp");
}

#[test]
fn topic_with_no_matching_resource_is_denied() {
    let info = example_policy();
    let token = token_for(&claims(&[("sub", Value::from("xxxx@example.jp"))]));
    assert!(authorize(&info, &token, "/m/d/dddd/transaction", Operation::Read).is_err());
}

#[test]
fn subject_constraint_gates_the_grant() {
    let info = example_policy();
    // the r2 grant asks for sub aaa@example.jp
    let good = token_for(&claims(&[("sub", Value::from("aaa@example.jp"))]));
    let record = authorize(&info, &good, "/m/d/dbname1/subset/sub1/transaction", Operation::Read)
        .expect("read should be allowed for the named subject");
    assert_eq!(record.message, "READ aaa@example.jp");
    let other = token_for(&claims(&[("sub", Value::from("bbb@example.jp"))]));
    assert!(
        authorize(&info, &other, "/m/d/dbname1/subset/sub1/transaction", Operation::Read).is_err()
    );
    // and the grant names read only: write is denied even for the subject
    assert!(
        authorize(&info, &good, "/m/d/dbname1/subset/sub1/transaction", Operation::Write).is_err()
    );
}

#[test]
fn topics_outside_the_address_templates_are_denied_regardless_of_policy() {
    // a catch-all rule granting everything to everyone
    let info = info_for(
        r#"{"key":"q6r2MewgJmLc","acl":[{"name":"all","resource":{"type":"dadget","path":"","accesses":[{"operation":"*"}]}}]}"#,
    );
    let token = token_for(&claims(&[("sub", Value::from("any@x"))]));
    assert!(authorize(&info, &token, "/mqtt_test/dddd", Operation::Write).is_err());
    assert!(authorize(&info, &token, "/m/d/db/transactions", Operation::Write).is_err());
    assert!(authorize(&info, &token, "not a topic", Operation::Write).is_err());
    // while an addressable topic is allowed by the same policy
    assert!(authorize(&info, &token, "/m/d/db/transaction", Operation::Write).is_ok());
}

#[test]
fn failed_verification_denies_and_emits_no_audit_record() {
    let info = example_policy();
    let token = token_for(&claims(&[("sub", Value::from("xxxx@example.jp"))]));
    // tampered token
    let mut bad = token.clone();
    bad.push('x');
    assert!(authenticate(&info, &bad).is_err());
    assert!(authorize(&info, &bad, "/m/d/db2/transaction", Operation::Write).is_err());
    // token signed with another key
    let foreign = encode(
        &Header::default(),
        &claims(&[("sub", Value::from("xxxx@example.jp"))]),
        &EncodingKey::from_secret(b"another key"),
    )
    .expect("token should encode");
    assert!(authenticate(&info, &foreign).is_err());
    assert!(authorize(&info, &foreign, "/m/d/db2/transaction", Operation::Write).is_err());
    // expired token (beyond the verifier's leeway)
    let mut expired_claims = serde_json::Map::new();
    expired_claims.insert("sub".to_string(), Value::from("xxxx@example.jp"));
    expired_claims.insert("exp".to_string(), Value::from(unix_time() - 600));
    let expired = token_for(&Value::Object(expired_claims));
    assert!(authenticate(&info, &expired).is_err());
    assert!(authorize(&info, &expired, "/m/d/db2/transaction", Operation::Write).is_err());
}

#[test]
fn authentication_reports_the_subject() {
    let info = example_policy();
    let token = token_for(&claims(&[("sub", Value::from("xxxx@example.jp"))]));
    let (_claims, record) = authenticate(&info, &token).expect("token should verify");
    assert_eq!(record.message, "AUTH xxxx@example.jp");
    // a verified token without a sub claim is reported as "no sub"
    let anonymous = token_for(&claims(&[]));
    let (_claims, record) = authenticate(&info, &anonymous).expect("token should verify");
    assert_eq!(record.message, "AUTH no sub");
}

#[test]
fn no_document_fails_closed() {
    let info = ConfigInfo { last_check_time: 0, file_time: 0, config: None };
    let token = token_for(&claims(&[("sub", Value::from("xxxx@example.jp"))]));
    assert!(authenticate(&info, &token).is_err());
    assert!(authorize(&info, &token, "/m/d/db2/transaction", Operation::Write).is_err());
}

#[test]
fn subscribe_is_granted_whenever_a_resource_matches() {
    // the only grant names an operation nobody requests and an impossible subject
    let info = info_for(
        r#"{"key":"q6r2MewgJmLc","acl":[{"name":"r","resource":{"type":"dadget","path":"db9","accesses":[{"operation":"none","subject":{"sub":"^$"}}]}}]}"#,
    );
    let token = token_for(&claims(&[("sub", Value::from("who@ever"))]));
    let record = authorize(&info, &token, "/m/d/db9/transaction", Operation::Subscribe)
        .expect("subscribe should be allowed once the resource matches");
    assert_eq!(record.message, "SUBSCRIBE who@ever");
    // while the same rule denies a write
    assert!(authorize(&info, &token, "/m/d/db9/transaction", Operation::Write).is_err());
    // and a subscribe on an unmatched resource is denied
    assert!(authorize(&info, &token, "/m/d/db8/transaction", Operation::Subscribe).is_err());
}

#[test]
fn first_matching_grant_settles_the_decision() {
    // both rules' resources match; the first grants the write
    let info = info_for(
        r#"{"key":"q6r2MewgJmLc","acl":[
            {"name":"first","resource":{"type":"dadget","path":"db1","accesses":[{"operation":"write"}]}},
            {"name":"second","resource":{"type":"dadget","path":{"regex":"db.*"},"accesses":[{"operation":"*"}]}}
        ]}"#,
    );
    let token = token_for(&claims(&[("sub", Value::from("s@x"))]));
    assert!(authorize(&info, &token, "/m/d/db1/transaction", Operation::Write).is_ok());
    // a rule whose grants do not match falls through to later rules
    assert!(authorize(&info, &token, "/m/d/db1/transaction", Operation::Read).is_ok());
}

#[test]
fn operation_strings_compare_case_insensitively_and_star_covers_all() {
    let info = info_for(
        r#"{"key":"q6r2MewgJmLc","acl":[
            {"name":"w","resource":{"type":"dadget","path":"dw","accesses":[{"operation":"WrItE"}]}},
            {"name":"s","resource":{"type":"dadget","path":"ds","accesses":[{"operation":"*"}]}}
        ]}"#,
    );
    let token = token_for(&claims(&[("sub", Value::from("s@x"))]));
    assert!(authorize(&info, &token, "/m/d/dw/transaction", Operation::Write).is_ok());
    assert!(authorize(&info, &token, "/m/d/dw/transaction", Operation::Read).is_err());
    assert!(authorize(&info, &token, "/m/d/ds/transaction", Operation::Read).is_ok());
    assert!(authorize(&info, &token, "/m/d/ds/transaction", Operation::Write).is_ok());
}

#[test]
fn non_string_claims_never_match_a_subject_constraint() {
    let info = info_for(
        r#"{"key":"q6r2MewgJmLc","acl":[{"name":"r","resource":{"type":"dadget","path":"db1","accesses":[{"operation":"read","subject":{"xattr":"33"}}]}}]}"#,
    );
    // the xattr claim is a number: the constraint cannot match
    let numeric = token_for(&claims(&[("sub", Value::from("s@x")), ("xattr", Value::from(33333))]));
    assert!(authorize(&info, &numeric, "/m/d/db1/transaction", Operation::Read).is_err());
    // as a string it matches anywhere in the text
    let textual =
        token_for(&claims(&[("sub", Value::from("s@x")), ("xattr", Value::from("33333"))]));
    assert!(authorize(&info, &textual, "/m/d/db1/transaction", Operation::Read).is_ok());
}

#[test]
fn rules_of_other_resource_kinds_are_never_consulted() {
    let info = info_for(
        r#"{"key":"q6r2MewgJmLc","acl":[{"name":"m","resource":{"type":"mqtt","path":"db1","accesses":[{"operation":"*"}]}}]}"#,
    );
    let token = token_for(&claims(&[("sub", Value::from("s@x"))]));
    assert!(authorize(&info, &token, "/m/d/db1/transaction", Operation::Read).is_err());
}

#[test]
fn an_unconstrained_grant_beside_a_constrained_one_still_applies() {
    // the first grant is restricted to one subject; the second grants read
    // to every subject
    let info = info_for(
        r#"{"key":"q6r2MewgJmLc","acl":[{"name":"r2","resource":{"type":"dadget","path":{"regex":"dbname1/sub.*"},"accesses":[
            {"operation":"read","subject":{"sub":"aaa@example\\.jp"}},
            {"operation":"read"}]}}]}"#,
    );
    let token = token_for(&claims(&[("sub", Value::from("zzz@elsewhere"))]));
    assert!(
        authorize(&info, &token, "/m/d/dbname1/subset/sub1/transaction", Operation::Write).is_err()
    );
    let record = authorize(&info, &token, "/m/d/dbname1/subset/sub1/transaction", Operation::Read)
        .expect("the unconstrained read grant should apply");
    assert_eq!(record.message, "READ zzz@elsewhere");
}
