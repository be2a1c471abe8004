use std::collections::hash_map::DefaultHasher;
use std::hash::{Hash, Hasher};

use rollcall::reconnect::{
    classify_failure, jitter, jitter_hash, retry_delay, FailureClass, HostPhase, HostReconnectState,
    IDLE_REFRESH_INTERVAL, IMPORTANT_REFRESH_INTERVAL,
};

const NOW: u64 = 1_000_000;

#[test]
fn important_hosts_back_off_to_about_thirty_seconds() {
    let now = NOW;
    let mut state = HostReconnectState::new(now);
    for failure in 1..=8 {
        state.begin_attempt();
        state.failed(now, "spot", true, 42, FailureClass::Transient);
        let delay = state.retry_in(now).expect("retry should be scheduled");
        if failure >= 5 {
            assert!(delay >= 24_000);
            assert!(delay <= 36_000);
        }
    }
}

#[test]
fn idle_hosts_relax_to_about_two_minutes() {
    let now = NOW;
    let mut state = HostReconnectState::new(now);
    for _ in 0..8 {
        state.begin_attempt();
        state.failed(now, "archive", false, 7, FailureClass::Transient);
    }
    let delay = state.retry_in(now).expect("retry should be scheduled");
    assert!(delay >= 96_000);
    assert!(delay <= 144_000);
}

#[test]
fn recovery_is_reported_after_a_failure() {
    let now = NOW;
    let mut state = HostReconnectState::new(now);
    state.begin_attempt();
    state.failed(now, "spot", true, 0, FailureClass::Transient);
    assert!(state.succeeded(now, true));
    assert_eq!(state.phase(), HostPhase::Online);
    assert!(!state.succeeded(now, true));
}

#[test]
fn authentication_failures_wait_for_manual_retry() {
    let now = NOW;
    let mut state = HostReconnectState::new(now);
    state.begin_attempt();
    state.failed(now, "spot", true, 0, FailureClass::Blocked);
    assert_eq!(state.phase(), HostPhase::Blocked);
    assert_eq!(state.retry_in(now), None);

    state.request_now(now);
    assert!(state.is_due(now));
}

#[test]
fn classifies_security_and_authentication_failures_as_blocked() {
    assert_eq!(
        classify_failure("Permission denied (publickey)."),
        FailureClass::Blocked
    );
    assert_eq!(
        classify_failure("Host key verification failed."),
        FailureClass::Blocked
    );
    assert_eq!(
        classify_failure("ssh: connect to host spot port 22: Connection timed out"),
        FailureClass::Transient
    );
}

#[test]
fn a_host_that_answered_is_asked_again_later() {
    let mut state = HostReconnectState::new(NOW);
    assert!(state.is_due(NOW));
    state.begin_attempt();
    assert!(!state.is_due(NOW));
    assert_eq!(state.phase(), HostPhase::Connecting);

    state.succeeded(NOW, true);
    assert_eq!(state.retry_in(NOW), Some(IMPORTANT_REFRESH_INTERVAL));
    state.succeeded(NOW, false);
    assert_eq!(state.retry_in(NOW), Some(IDLE_REFRESH_INTERVAL));
    assert!(!state.is_due(NOW + IDLE_REFRESH_INTERVAL - 1));
    assert!(state.is_due(NOW + IDLE_REFRESH_INTERVAL));
}

#[test]
fn the_delay_grows_until_it_reaches_its_limit() {
    // The middle of the range leaves the delay as it is.
    let delays = |important| -> Vec<u64> { (1..=6).map(|n| retry_delay(n, important, 20)).collect() };
    assert_eq!(delays(true), [2_000, 5_000, 10_000, 20_000, 30_000, 30_000]);
    assert_eq!(
        delays(false),
        [5_000, 15_000, 30_000, 60_000, 120_000, 120_000]
    );
}

#[test]
fn jitter_never_strays_by_more_than_a_fifth() {
    for hash in [0, 1, 399, 400, 401, 12_345, u64::MAX] {
        let delay = jitter(30_000, hash);
        assert!((24_000..=36_000).contains(&delay));
    }
    assert_eq!(jitter(30_000, 0), 24_000);
    assert_eq!(jitter(30_000, 40), 36_000);
    assert_eq!(jitter(0, 40), 1);
    assert_eq!(jitter(u64::MAX, 40), u64::MAX);
}

#[test]
fn the_same_failure_of_the_same_host_waits_as_long() {
    let mut first = HostReconnectState::new(NOW);
    let mut second = HostReconnectState::new(NOW);
    first.failed(NOW, "spot", true, 9, FailureClass::Transient);
    second.failed(NOW, "spot", true, 9, FailureClass::Transient);
    assert_eq!(first, second);
}

#[test]
fn the_jitter_hash_is_that_of_the_host_the_count_and_the_seed() {
    for (target, count, seed) in [("spot", 1_u64, 9), ("", 0, 0), ("b\u{fc}ro", 7, u64::MAX)] {
        let mut hasher = DefaultHasher::new();
        target.hash(&mut hasher);
        count.hash(&mut hasher);
        seed.hash(&mut hasher);
        assert_eq!(jitter_hash(target, count as usize, seed), hasher.finish());
    }
    assert_ne!(jitter_hash("spot", 1, 9), jitter_hash("spare", 1, 9));
    assert_ne!(jitter_hash("spot", 1, 9), jitter_hash("spot", 2, 9));
    assert_ne!(jitter_hash("spot", 1, 9), jitter_hash("spot", 1, 10));
}
