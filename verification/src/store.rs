//! The hot-reloadable policy store's state and reload protocol.
//!
//! One generation of the store is a [`ConfigInfo`]: the instant of the last
//! source check, the source's modification time as last seen, and the current
//! policy document (`None` until a document has ever parsed — fail-closed).
//!
//! The reload protocol runs in three steps, each a function here; the caller
//! owns the clock, the lock and the filesystem and feeds their readings in:
//!
//! 1. [`check_config_update`] — the throttle: probe the source's modification
//!    time only once the check interval has elapsed.
//! 2. [`check_config_update_time`] — given the probed modification time,
//!    decide whether the source must be re-read; when it is unchanged the
//!    throttle clock is refreshed and the generation stands.
//!    [`no_check_config_update`] is the forced variant used for explicit
//!    security re-initialisation, which skips step 1's throttle.
//! 3. [`update_config`] — install the outcome: a parsed document replaces the
//!    generation wholesale; a failed read or parse keeps the previous
//!    document (fail-safe continuity).

use vstd::prelude::*;
use crate::config::Config;

verus! {

/// Seconds that must elapse between two probes of the policy source.
pub const CONFIG_FILE_CHECK_INTERVAL: u64 = 1;

/// One generation of the policy store.
pub struct ConfigInfo {
    /// The instant (in seconds) the source was last checked or reloaded.
    pub last_check_time: u64,
    /// The source's modification time as last observed, `0` when unknown.
    pub file_time: i64,
    /// The current policy document; `None` until one has ever parsed.
    pub config: Option<Config>,
}

/// Whether the check interval has strictly elapsed since the last check.
/// A clock that moved backwards reads as not elapsed.
pub open spec fn interval_elapsed(info: ConfigInfo, now: u64) -> bool {
    now >= info.last_check_time && now - info.last_check_time > CONFIG_FILE_CHECK_INTERVAL
}

/// Whether a reload is due: the interval has elapsed and the probed
/// modification time differs from the one last observed.
pub open spec fn reload_due(info: ConfigInfo, now: u64, file_time: i64) -> bool {
    interval_elapsed(info, now) && file_time != info.file_time
}

/// Step 1 of the unforced reload protocol: whether the source's modification
/// time should be probed at all. While the interval has not elapsed the
/// current generation stands and no probe is made.
pub fn check_config_update(config_info: &ConfigInfo, now: u64) -> (probe: bool)
    ensures
        probe == interval_elapsed(*config_info, now),
{
    now >= config_info.last_check_time && now - config_info.last_check_time
        > CONFIG_FILE_CHECK_INTERVAL
}

/// Step 2: given the probed modification time, decide whether the source must
/// be re-read and re-parsed. An unchanged source refreshes the throttle clock
/// and leaves the generation as it stands.
pub fn check_config_update_time(config_info: &mut ConfigInfo, now: u64, file_time: i64) -> (reload:
    bool)
    ensures
        reload == (file_time != old(config_info).file_time),
        reload ==> *final(config_info) == *old(config_info),
        !reload ==> final(config_info).last_check_time == now && final(config_info).file_time
            == old(config_info).file_time && final(config_info).config == old(config_info).config,
{
    if file_time != config_info.file_time {
        true
    } else {
        config_info.last_check_time = now;
        false
    }
}

/// The forced reload decision, for an explicit security re-initialisation
/// signal: the caller skips the check-interval throttle and probes at once;
/// the modification-time guard still applies.
pub fn no_check_config_update(config_info: &mut ConfigInfo, now: u64, file_time: i64) -> (reload:
    bool)
    ensures
        reload == (file_time != old(config_info).file_time),
        reload ==> *final(config_info) == *old(config_info),
        !reload ==> final(config_info).last_check_time == now && final(config_info).file_time
            == old(config_info).file_time && final(config_info).config == old(config_info).config,
{
    check_config_update_time(config_info, now, file_time)
}

/// Step 3: install a reload outcome. A newly parsed document replaces the
/// generation wholesale; `None` (the source was unreadable or did not parse)
/// keeps the previous document and modification time, so the store goes on
/// serving the last known-good policy and retries after the next interval.
pub fn update_config(config_info: &mut ConfigInfo, now: u64, file_time: i64, parsed: Option<Config>)
    ensures
        final(config_info).last_check_time == now,
        parsed is Some ==> final(config_info).file_time == file_time
            && final(config_info).config == parsed,
        parsed is None ==> final(config_info).file_time == old(config_info).file_time
            && final(config_info).config == old(config_info).config,
{
    config_info.last_check_time = now;
    match parsed {
        Some(c) => {
            config_info.file_time = file_time;
            config_info.config = Some(c);
        },
        None => {},
    }
}

/// Repeated checks within the interval are idempotent: after any step that
/// set the check instant to `now`, no probe — and so no re-read of the
/// source — happens for `CONFIG_FILE_CHECK_INTERVAL` seconds.
pub proof fn lemma_no_probe_within_interval(info: ConfigInfo, now: u64, later: u64)
    requires
        info.last_check_time == now,
        later - now <= CONFIG_FILE_CHECK_INTERVAL,
    ensures
        !interval_elapsed(info, later),
{
}

/// Reload correctness: once the source has changed and the interval has
/// elapsed, the unforced protocol reaches the reload step, and a generation
/// built from the newly parsed document serves exactly that document.
pub proof fn lemma_reload_observed(prev: ConfigInfo, now: u64, file_time: i64, cfg: Config)
    requires
        interval_elapsed(prev, now),
        file_time != prev.file_time,
    ensures
        reload_due(prev, now, file_time),
        (ConfigInfo { last_check_time: now, file_time, config: Some(cfg) }).config == Some(cfg),
{
}

} // verus!
