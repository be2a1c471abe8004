//! When an unreachable host is tried again, and when a reachable one is read again.
//!
//! Times are milliseconds of a monotonic clock.

use std::collections::hash_map::DefaultHasher;
use std::hash::Hasher;

use vstd::bytes::{spec_u64_to_le_bytes, u64_to_le_bytes};
use vstd::prelude::*;
use vstd::std_specs::hash::DefaultHasherAdditionalSpecFns;
use vstd::utf8::encode_utf8;

use crate::text::{ascii_lower, contains, contains_text, to_ascii_lower};

verus! {

/// How long a reachable host that matters is left alone: one minute.
pub const IMPORTANT_REFRESH_INTERVAL: u64 = 60_000;

/// How long a reachable host that does not is left alone: three minutes.
pub const IDLE_REFRESH_INTERVAL: u64 = 180_000;

/// Where a host stands.
#[derive(Clone, Copy, Debug, Eq, PartialEq, Structural)]
pub enum HostPhase {
    Cached,
    Connecting,
    Online,
    Backoff,
    Blocked,
}

/// Whether a failure may pass by itself.
#[derive(Clone, Copy, Debug, Eq, PartialEq, Structural)]
pub enum FailureClass {
    Transient,
    Blocked,
}

/// What is known of the attempts to reach a host.
#[derive(Clone, Copy, Debug, Eq, PartialEq, Structural)]
pub struct HostReconnectState {
    pub phase: HostPhase,
    pub consecutive_failures: usize,
    pub next_attempt_at: Option<u64>,
}

/// A host that is to be tried at once.
pub open spec fn requested(now: u64) -> HostReconnectState {
    HostReconnectState {
        phase: HostPhase::Cached,
        consecutive_failures: 0,
        next_attempt_at: Some(now),
    }
}

/// A host that is being tried.
pub open spec fn attempting(state: HostReconnectState) -> HostReconnectState {
    HostReconnectState { phase: HostPhase::Connecting, next_attempt_at: None, ..state }
}

/// How long a reachable host is left alone.
pub open spec fn refresh_interval(important: bool) -> u64 {
    if important {
        IMPORTANT_REFRESH_INTERVAL
    } else {
        IDLE_REFRESH_INTERVAL
    }
}

/// A host that answered.
pub open spec fn reached(now: u64, important: bool) -> HostReconnectState {
    HostReconnectState {
        phase: HostPhase::Online,
        consecutive_failures: 0,
        next_attempt_at: Some((now + refresh_interval(important)) as u64),
    }
}

/// One failure more, up to what can be counted.
pub open spec fn one_more(failures: usize) -> usize {
    if failures < usize::MAX {
        (failures + 1) as usize
    } else {
        failures
    }
}

/// The delay after so many failures in a row, before jitter: about 2, 5, 10, 20 and then
/// 30 seconds for a host that matters, 5, 15, 30, 60 and then 120 for another.
pub open spec fn base_delay(failures: usize, important: bool) -> u64 {
    if important {
        if failures <= 1 {
            2_000
        } else if failures == 2 {
            5_000
        } else if failures == 3 {
            10_000
        } else if failures == 4 {
            20_000
        } else {
            30_000
        }
    } else {
        if failures <= 1 {
            5_000
        } else if failures == 2 {
            15_000
        } else if failures == 3 {
            30_000
        } else if failures == 4 {
            60_000
        } else {
            120_000
        }
    }
}

/// A delay moved by a whole percentage between -20 and 20 that the hash picks, and at least
/// one millisecond.
pub open spec fn jittered(base: u64, hash: u64) -> int {
    let pick = (hash % 41) as int;
    let moved = if pick >= 20 {
        base + base * (pick - 20) / 100
    } else {
        base - base * (20 - pick) / 100
    };
    if moved < 1 {
        1
    } else {
        moved
    }
}

/// A host that failed, under the hash that picks the jitter.
pub open spec fn failed_state(
    state: HostReconnectState,
    now: u64,
    important: bool,
    class: FailureClass,
    hash: u64,
) -> HostReconnectState {
    let failures = one_more(state.consecutive_failures);
    match class {
        FailureClass::Blocked => HostReconnectState {
            phase: HostPhase::Blocked,
            consecutive_failures: failures,
            next_attempt_at: None,
        },
        FailureClass::Transient => HostReconnectState {
            phase: HostPhase::Backoff,
            consecutive_failures: failures,
            next_attempt_at: Some((now + jittered(base_delay(failures, important), hash)) as u64),
        },
    }
}

/// Far enough from the end of the clock that the longest delay can be added.
pub open spec fn within_clock(now: u64) -> bool {
    now + IDLE_REFRESH_INTERVAL <= u64::MAX
}

/// The jitter stays within a fifth of the delay.
pub proof fn jitter_is_within_a_fifth(base: u64, hash: u64)
    requires
        base >= 1,
    ensures
        base * 4 / 5 <= jittered(base, hash) <= base + base / 5,
{
    let pick = (hash % 41) as int;
    if pick >= 20 {
        let k = pick - 20;
        assert(base * k <= base * 20 && base * k >= 0) by (nonlinear_arith)
            requires
                0 <= k <= 20,
                base >= 0,
        ;
        assert(base * k / 100 <= base * 20 / 100);
    } else {
        let k = 20 - pick;
        assert(base * k <= base * 20 && base * k >= 0) by (nonlinear_arith)
            requires
                0 <= k <= 20,
                base >= 0,
        ;
        assert(base * k / 100 <= base * 20 / 100);
    }
}

impl HostReconnectState {
    /// A host that was not tried yet.
    pub fn new(now: u64) -> (r: Self)
        ensures
            r == requested(now),
    {
        HostReconnectState {
            phase: HostPhase::Cached,
            consecutive_failures: 0,
            next_attempt_at: Some(now),
        }
    }

    /// Where the host stands.
    pub fn phase(&self) -> (r: HostPhase)
        ensures
            r == self.phase,
    {
        self.phase
    }

    /// The time of the next attempt has come.
    pub open spec fn due(self, now: u64) -> bool {
        self.next_attempt_at matches Some(at) && now >= at
    }

    /// Whether the time of the next attempt has come.
    pub fn is_due(&self, now: u64) -> (r: bool)
        ensures
            r == self.due(now),
    {
        match self.next_attempt_at {
            Some(at) => now >= at,
            None => false,
        }
    }

    /// Notes that an attempt is under way.
    pub fn begin_attempt(&mut self)
        ensures
            *final(self) == attempting(*old(self)),
    {
        self.phase = HostPhase::Connecting;
        self.next_attempt_at = None;
    }

    /// Asks for an attempt at once, and forgets earlier failures.
    pub fn request_now(&mut self, now: u64)
        ensures
            *final(self) == requested(now),
    {
        self.phase = HostPhase::Cached;
        self.consecutive_failures = 0;
        self.next_attempt_at = Some(now);
    }

    /// Notes that the host answered, and says whether it had failed before.
    pub fn succeeded(&mut self, now: u64, important: bool) -> (r: bool)
        requires
            within_clock(now),
        ensures
            *final(self) == reached(now, important),
            r == (old(self).consecutive_failures > 0),
    {
        let recovered: bool = self.consecutive_failures > 0;
        self.phase = HostPhase::Online;
        self.consecutive_failures = 0;
        let interval: u64 = if important {
            IMPORTANT_REFRESH_INTERVAL
        } else {
            IDLE_REFRESH_INTERVAL
        };
        self.next_attempt_at = Some(now + interval);
        recovered
    }

    /// Notes that the host failed, under the given hash.
    pub fn failed_with_hash(&mut self, now: u64, important: bool, class: FailureClass, hash: u64)
        requires
            within_clock(now),
        ensures
            *final(self) == failed_state(*old(self), now, important, class, hash),
    {
        self.consecutive_failures = self.consecutive_failures.saturating_add(1);
        match class {
            FailureClass::Blocked => {
                self.phase = HostPhase::Blocked;
                self.next_attempt_at = None;
            },
            FailureClass::Transient => {
                self.phase = HostPhase::Backoff;
                let delay: u64 = retry_delay(self.consecutive_failures, important, hash);
                self.next_attempt_at = Some(now + delay);
            },
        }
    }

    /// Notes that the host failed. The hash of this failure picks the jitter.
    pub fn failed(
        &mut self,
        now: u64,
        target: &str,
        important: bool,
        jitter_seed: u64,
        class: FailureClass,
    )
        requires
            within_clock(now),
        ensures
            *final(self) == failed_state(
                *old(self),
                now,
                important,
                class,
                failure_hash(target@, one_more(old(self).consecutive_failures), jitter_seed),
            ),
    {
        let failures: usize = self.consecutive_failures.saturating_add(1);
        let hash: u64 = jitter_hash(target, failures, jitter_seed);
        self.failed_with_hash(now, important, class, hash);
    }

    /// How long the next attempt is away.
    pub open spec fn wait(self, now: u64) -> Option<u64> {
        match self.next_attempt_at {
            Some(at) => Some(if at > now { (at - now) as u64 } else { 0 }),
            None => None,
        }
    }

    /// How long the next attempt is away, where one is planned.
    pub fn retry_in(&self, now: u64) -> (r: Option<u64>)
        ensures
            r == self.wait(now),
    {
        match self.next_attempt_at {
            Some(at) => Some(at.saturating_sub(now)),
            None => None,
        }
    }
}

/// The message tells of a failure that only the user can mend: authentication or the
/// identity of the host.
pub open spec fn is_blocking(message: Seq<char>) -> bool {
    let lower = ascii_lower(message);
    ||| contains_text(lower, "permission denied"@)
    ||| contains_text(lower, "host key verification failed"@)
    ||| contains_text(lower, "remote host identification has changed"@)
    ||| contains_text(lower, "no such identity"@)
    ||| contains_text(lower, "authentication failed"@)
}

/// Tells the failures that only the user can mend from those that may pass.
pub fn classify_failure(message: &str) -> (r: FailureClass)
    ensures
        r is Blocked <==> is_blocking(message@),
{
    let lower: String = to_ascii_lower(message);
    let lower: &str = lower.as_str();
    if contains(lower, "permission denied") || contains(lower, "host key verification failed")
        || contains(lower, "remote host identification has changed") || contains(
        lower,
        "no such identity",
    ) || contains(lower, "authentication failed") {
        FailureClass::Blocked
    } else {
        FailureClass::Transient
    }
}

/// The delay after so many failures in a row, under the given hash.
pub fn retry_delay(failure_count: usize, important: bool, hash: u64) -> (r: u64)
    ensures
        r == jittered(base_delay(failure_count, important), hash),
        1 <= r <= 144_000,
{
    let base: u64 = if important {
        if failure_count <= 1 {
            2_000
        } else if failure_count == 2 {
            5_000
        } else if failure_count == 3 {
            10_000
        } else if failure_count == 4 {
            20_000
        } else {
            30_000
        }
    } else {
        if failure_count <= 1 {
            5_000
        } else if failure_count == 2 {
            15_000
        } else if failure_count == 3 {
            30_000
        } else if failure_count == 4 {
            60_000
        } else {
            120_000
        }
    };
    proof {
        jitter_is_within_a_fifth(base, hash);
    }
    jitter(base, hash)
}

/// Moves a delay by the percentage that the hash picks, as far as it can be counted.
pub fn jitter(base: u64, hash: u64) -> (r: u64)
    ensures
        r == (if jittered(base, hash) <= u64::MAX {
            jittered(base, hash)
        } else {
            u64::MAX as int
        }),
{
    let pick: u64 = hash % 41;
    let whole: u128 = base as u128;
    let moved: u128 = if pick >= 20 {
        let k: u128 = (pick - 20) as u128;
        assert(whole * k <= whole * 20) by (nonlinear_arith)
            requires
                k <= 20,
        ;
        let part: u128 = whole * k / 100;
        assert(part == base * ((hash % 41) as int - 20) / 100);
        whole + part
    } else {
        let k: u128 = (20 - pick) as u128;
        assert(whole * k <= whole * 20) by (nonlinear_arith)
            requires
                k <= 20,
        ;
        let part: u128 = whole * k / 100;
        assert(part == base * (20 - (hash % 41) as int) / 100);
        whole - part
    };
    if moved < 1 {
        1
    } else if moved <= u64::MAX as u128 {
        moved as u64
    } else {
        u64::MAX
    }
}

/// What a hasher is given of a host's failure: the bytes of the host's name and one that is
/// part of no text, and then the count and the seed, each as eight bytes, the lowest first.
pub open spec fn jitter_input(
    target: Seq<char>,
    failure_count: usize,
    jitter_seed: u64,
) -> Seq<Seq<u8>> {
    seq![
        encode_utf8(target),
        seq![0xffu8],
        spec_u64_to_le_bytes(failure_count as u64),
        spec_u64_to_le_bytes(jitter_seed),
    ]
}

/// The hash of a host's failure.
pub open spec fn failure_hash(target: Seq<char>, failure_count: usize, jitter_seed: u64) -> u64 {
    DefaultHasher::spec_finish(jitter_input(target, failure_count, jitter_seed))
}

/// The hash of a host's failure, as std's default hasher makes it of the host's name, the
/// count of its failures and the seed.
pub fn jitter_hash(target: &str, failure_count: usize, jitter_seed: u64) -> (r: u64)
    ensures
        r == failure_hash(target@, failure_count, jitter_seed),
{
    let ends_text: Vec<u8> = vec![0xff];
    let count: Vec<u8> = u64_to_le_bytes(failure_count as u64);
    let seed: Vec<u8> = u64_to_le_bytes(jitter_seed);
    let mut hasher: DefaultHasher = DefaultHasher::new();
    hasher.write(target.as_bytes());
    hasher.write(ends_text.as_slice());
    hasher.write(count.as_slice());
    hasher.write(seed.as_slice());
    assert(ends_text@ =~= seq![0xffu8]);
    assert(hasher@ =~= jitter_input(target@, failure_count, jitter_seed));
    hasher.finish()
}

// ---- laws ----

/// However often a host fails, its next attempt is planned within a fifth of the curve:
/// never sooner than four fifths of the delay and never later than six fifths of it.
pub proof fn backoff_follows_the_curve(
    state: HostReconnectState,
    now: u64,
    important: bool,
    hash: u64,
)
    requires
        within_clock(now),
    ensures
        ({
            let failures = one_more(state.consecutive_failures);
            let base = base_delay(failures, important);
            failed_state(state, now, important, FailureClass::Transient, hash).wait(now) matches Some(
                delay,
            ) && base * 4 / 5 <= delay <= base + base / 5
        }),
{
    let failures = one_more(state.consecutive_failures);
    jitter_is_within_a_fifth(base_delay(failures, important), hash);
}

/// The delay never shrinks while failures go on.
pub proof fn backoff_never_shrinks(failures: usize, more: usize, important: bool)
    requires
        failures <= more,
    ensures
        base_delay(failures, important) <= base_delay(more, important),
{
}

/// A failure that only the user can mend is never retried until the user asks; then it is
/// due at once.
pub proof fn blocked_hosts_wait_for_the_user(
    state: HostReconnectState,
    now: u64,
    later: u64,
    important: bool,
    hash: u64,
)
    ensures
        !failed_state(state, now, important, FailureClass::Blocked, hash).due(later),
        failed_state(state, now, important, FailureClass::Blocked, hash).wait(later) is None,
        requested(later).due(later),
{
}

/// A host under way is not tried a second time.
pub proof fn attempts_do_not_overlap(state: HostReconnectState, now: u64)
    ensures
        !attempting(state).due(now),
{
}

/// A recovery is reported after a failure, and only once.
pub proof fn recovery_is_reported_once(
    state: HostReconnectState,
    now: u64,
    important: bool,
    class: FailureClass,
    hash: u64,
)
    ensures
        failed_state(state, now, important, class, hash).consecutive_failures > 0,
        reached(now, important).consecutive_failures == 0,
{
}

} // verus!
