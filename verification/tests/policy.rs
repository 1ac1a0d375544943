use pubsub_acl::config::{compile_access, compile_path, parse_policy, Config, ConfigError, DadgetResourcePath, RawAccess, RawPath};

fn parse(text: &str) -> Result<Config, ConfigError> {
    parse_policy(text.as_bytes())
}

fn parse_err(text: &str) -> ConfigError {
    match parse(text) {
        Err(e) => e,
        Ok(_) => panic!("the document parsed unexpectedly"),
    }
}

#[test]
fn minimal_document_parses() {
    let cfg = parse(
        r#"{"key":"secret","acl":[{"name":"r1","resource":{"type":"dadget","path":"db1","accesses":[{"operation":"read"}]}}]}"#,
    )
    .expect("document should parse");
    assert_eq!(cfg.key, "secret");
    assert_eq!(cfg.acl.len(), 1);
    assert_eq!(cfg.acl[0].name, "r1");
    assert_eq!(cfg.acl[0].resource.resource_type.as_deref(), Some("dadget"));
    assert_eq!(cfg.acl[0].resource.accesses.len(), 1);
    assert_eq!(cfg.acl[0].resource.accesses[0].operation, "read");
    assert!(cfg.acl[0].resource.accesses[0].subject.is_none());
}

#[test]
fn literal_path_is_split_into_segments() {
    let cfg = parse(
        r#"{"key":"k","acl":[{"name":"r","resource":{"type":"dadget","path":"/a//b/","accesses":[]}}]}"#,
    )
    .expect("document should parse");
    match &cfg.acl[0].resource.path {
        DadgetResourcePath::Str(segs) => assert_eq!(segs, &vec!["a".to_string(), "b".to_string()]),
        DadgetResourcePath::Regex(_) => panic!("expected a literal path"),
    }
}

#[test]
fn malformed_documents_are_rejected() {
    assert_eq!(parse_err("not json"), ConfigError::MalformedConfig);
    assert_eq!(parse_err(r#"{"acl":[]}"#), ConfigError::MalformedConfig);
    assert_eq!(parse_err(r#"{"key":"k"}"#), ConfigError::MalformedConfig);
    assert_eq!(parse_err(r#"{"key":7,"acl":[]}"#), ConfigError::MalformedConfig);
    assert_eq!(parse_err(r#"{"key":"k","acl":7}"#), ConfigError::MalformedConfig);
    // a rule without a name
    assert_eq!(parse_err(r#"{"key":"k","acl":[{"resource":{"type":"dadget","path":"a","accesses":[]}}]}"#), ConfigError::MalformedConfig);
    // a resource without accesses
    assert_eq!(parse_err(r#"{"key":"k","acl":[{"name":"r","resource":{"type":"dadget","path":"a"}}]}"#), ConfigError::MalformedConfig);
    // a path of the wrong shape
    assert_eq!(parse_err(r#"{"key":"k","acl":[{"name":"r","resource":{"type":"dadget","path":7,"accesses":[]}}]}"#), ConfigError::MalformedConfig);
    // an access without an operation
    assert_eq!(parse_err(r#"{"key":"k","acl":[{"name":"r","resource":{"type":"dadget","path":"a","accesses":[{"subject":{}}]}}]}"#), ConfigError::MalformedConfig);
    // a non-string subject constraint
    assert_eq!(parse_err(r#"{"key":"k","acl":[{"name":"r","resource":{"type":"dadget","path":"a","accesses":[{"operation":"read","subject":{"sub":5}}]}}]}"#), ConfigError::MalformedConfig);
}

#[test]
fn a_path_regex_that_does_not_compile_is_rejected() {
    assert_eq!(parse_err(r#"{"key":"k","acl":[{"name":"r","resource":{"type":"dadget","path":{"regex":"("},"accesses":[]}}]}"#), ConfigError::MalformedConfig);
}

#[test]
fn a_subject_regex_that_does_not_compile_is_rejected() {
    assert_eq!(parse_err(r#"{"key":"k","acl":[{"name":"r","resource":{"type":"dadget","path":"a","accesses":[{"operation":"read","subject":{"sub":"["}}]}}]}"#), ConfigError::MalformedConfig);
}

#[test]
fn literal_paths_match_their_segments_exactly() {
    let cfg = parse(
        r#"{"key":"k","acl":[{"name":"r","resource":{"type":"dadget","path":"dbA","accesses":[]}}]}"#,
    )
    .expect("document should parse");
    let path = &cfg.acl[0].resource.path;
    assert!(path.check_path("dbA", None));
    assert!(!path.check_path("dbB", None));
    assert!(!path.check_path("dbA", Some("s")));
}

#[test]
fn pattern_paths_match_per_anchored_segment() {
    let cfg = parse(
        r#"{"key":"k","acl":[{"name":"r","resource":{"type":"dadget","path":{"regex":"db.*"},"accesses":[]}}]}"#,
    )
    .expect("document should parse");
    let path = &cfg.acl[0].resource.path;
    assert!(path.check_path("db1", None));
    assert!(path.check_path("dbX", None));
    assert!(!path.check_path("adb1", None));
    assert!(!path.check_path("xx", None));
}

#[test]
fn two_segment_patterns_require_both_components() {
    let cfg = parse(
        r#"{"key":"k","acl":[{"name":"r","resource":{"type":"dadget","path":{"regex":"dbname1/sub.*"},"accesses":[]}}]}"#,
    )
    .expect("document should parse");
    let path = &cfg.acl[0].resource.path;
    assert!(path.check_path("dbname1", Some("sub1")));
    assert!(!path.check_path("dbname1", None));
    assert!(!path.check_path("dbname2", Some("sub1")));
    assert!(!path.check_path("dbname1", Some("xub1")));
}

#[test]
fn an_empty_path_matches_every_topic() {
    let cfg = parse(
        r#"{"key":"k","acl":[{"name":"r","resource":{"type":"dadget","path":"","accesses":[]}}]}"#,
    )
    .expect("document should parse");
    let path = &cfg.acl[0].resource.path;
    assert!(path.check_path("anything", None));
    assert!(path.check_path("a", Some("b")));
}

#[test]
fn compile_reports_invalid_patterns_and_malformed_paths() {
    let err = match compile_path(&RawPath::Pattern("(".to_string())) {
        Err(e) => e,
        Ok(_) => panic!("the pattern should not compile"),
    };
    assert_eq!(err, ConfigError::InvalidPattern);
    let err = match compile_path(&RawPath::Invalid) {
        Err(e) => e,
        Ok(_) => panic!("an invalid path shape should be rejected"),
    };
    assert_eq!(err, ConfigError::MalformedConfig);
    let access = RawAccess {
        operation: "read".to_string(),
        subject: Some(vec![("sub".to_string(), "[".to_string())]),
    };
    let err = match compile_access(&access) {
        Err(e) => e,
        Ok(_) => panic!("the subject pattern should not compile"),
    };
    assert_eq!(err, ConfigError::InvalidPattern);
    assert!(compile_path(&RawPath::Text("a/b".to_string())).is_ok());
}
