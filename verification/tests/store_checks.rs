use pubsub_acl::config::parse_policy;
use pubsub_acl::store::{
    check_config_update, check_config_update_time, no_check_config_update, update_config,
    ConfigInfo, CONFIG_FILE_CHECK_INTERVAL,
};

fn sample_config_bytes(key: &str) -> Vec<u8> {
    format!(
        r#"{{"key":"{}","acl":[{{"name":"r","resource":{{"type":"dadget","path":"db1","accesses":[{{"operation":"*"}}]}}}}]}}"#,
        key
    )
    .into_bytes()
}

#[test]
fn probes_are_throttled_within_the_interval() {
    let info = ConfigInfo { last_check_time: 100, file_time: 5, config: None };
    // repeated calls within the interval never ask for a probe
    assert!(!check_config_update(&info, 100));
    assert!(!check_config_update(&info, 100 + CONFIG_FILE_CHECK_INTERVAL));
    // a clock that moved backwards reads as not elapsed
    assert!(!check_config_update(&info, 99));
    // strictly past the interval the probe is due
    assert!(check_config_update(&info, 100 + CONFIG_FILE_CHECK_INTERVAL + 1));
}

#[test]
fn unchanged_source_refreshes_the_clock_and_keeps_the_generation() {
    let mut info = ConfigInfo { last_check_time: 100, file_time: 5, config: None };
    let reload = check_config_update_time(&mut info, 200, 5);
    assert!(!reload);
    assert_eq!(info.last_check_time, 200);
    assert_eq!(info.file_time, 5);
    // within the refreshed interval no further probe is due
    assert!(!check_config_update(&info, 201));
}

#[test]
fn changed_source_asks_for_a_reload() {
    let mut info = ConfigInfo { last_check_time: 100, file_time: 5, config: None };
    assert!(check_config_update_time(&mut info, 200, 6));
    // the generation stands untouched until the reload outcome is installed
    assert_eq!(info.last_check_time, 100);
    assert_eq!(info.file_time, 5);
}

#[test]
fn forced_check_skips_the_throttle_but_keeps_the_time_guard() {
    let mut info = ConfigInfo { last_check_time: 100, file_time: 5, config: None };
    // within the interval, where the unforced path would not even probe
    assert!(!check_config_update(&info, 100));
    assert!(no_check_config_update(&mut info, 100, 6));
    let mut info2 = ConfigInfo { last_check_time: 100, file_time: 5, config: None };
    assert!(!no_check_config_update(&mut info2, 100, 5));
}

#[test]
fn successful_reload_replaces_the_generation_wholesale() {
    let mut info = ConfigInfo { last_check_time: 0, file_time: 0, config: None };
    let cfg = parse_policy(&sample_config_bytes("k1")).expect("document should parse");
    update_config(&mut info, 50, 7, Some(cfg));
    assert_eq!(info.last_check_time, 50);
    assert_eq!(info.file_time, 7);
    assert_eq!(info.config.as_ref().map(|c| c.key.as_str()), Some("k1"));
}

#[test]
fn failed_reload_keeps_the_last_good_document() {
    let mut info = ConfigInfo { last_check_time: 0, file_time: 7, config: None };
    let cfg = parse_policy(&sample_config_bytes("k1")).expect("document should parse");
    update_config(&mut info, 50, 7, Some(cfg));
    // the next source revision does not parse: the previous document stands
    update_config(&mut info, 60, 9, parse_policy(b"{ broken").ok());
    assert_eq!(info.last_check_time, 60);
    assert_eq!(info.file_time, 7);
    assert_eq!(info.config.as_ref().map(|c| c.key.as_str()), Some("k1"));
}

#[test]
fn reload_protocol_observes_a_changed_source() {
    // the caller's loop, with a counter of how often the source was read
    let mut reads: u32 = 0;
    let mut source: Vec<u8> = sample_config_bytes("old");
    let mut mtime: i64 = 1;
    let mut info = ConfigInfo { last_check_time: 0, file_time: 0, config: None };

    let mut ensure_current = |info: &mut ConfigInfo, now: u64, source: &Vec<u8>, mtime: i64, reads: &mut u32| {
        if check_config_update(info, now) {
            if check_config_update_time(info, now, mtime) {
                *reads += 1;
                update_config(info, now, mtime, parse_policy(source).ok());
            }
        }
    };

    ensure_current(&mut info, 10, &source, mtime, &mut reads);
    assert_eq!(reads, 1);
    assert_eq!(info.config.as_ref().map(|c| c.key.as_str()), Some("old"));

    // repeated calls within the interval never re-read the source
    ensure_current(&mut info, 10, &source, mtime, &mut reads);
    ensure_current(&mut info, 11, &source, mtime, &mut reads);
    assert_eq!(reads, 1);

    // the source changes; once the interval has passed the next call
    // observes the new document
    source = sample_config_bytes("new");
    mtime = 2;
    ensure_current(&mut info, 11, &source, mtime, &mut reads);
    assert_eq!(reads, 1, "still within the interval");
    ensure_current(&mut info, 12, &source, mtime, &mut reads);
    assert_eq!(reads, 2);
    assert_eq!(info.config.as_ref().map(|c| c.key.as_str()), Some("new"));

    // an unchanged source past the interval probes but does not re-read
    ensure_current(&mut info, 20, &source, mtime, &mut reads);
    assert_eq!(reads, 2);
}
