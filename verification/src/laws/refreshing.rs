//! What the picker makes of the answers of the hosts, and when it asks them.

use vstd::prelude::*;

use crate::domain::{LiveObservation, Session};
use crate::laws::keys::stands_on;
use crate::picker::refresh::{details_on, live_session, live_updates, needs_detail};
use crate::picker::{CachedDetail, Clock, ContentView, EffectView, PickerView, RefreshEvent};
use crate::reconnect::{
    base_delay, classify_failure, jitter_is_within_a_fifth, within_clock, FailureClass,
    HostReconnectState,
};
use crate::store::{loaded, recorded, settled, stale_cutoff, stored_seconds, unread_ids};
use crate::text::{
    ascii_lower, contains_text, decimal, text_lt, text_lt_irreflexive, text_lt_total,
    text_lt_transitive, trimmed,
};

verus! {

/// The name under which the sessions of a target are listed: this host's own for the local one,
/// else the target's.
pub open spec fn seen_as(target: Seq<char>, local_hostname: Seq<char>) -> Seq<char> {
    if target == "local"@ {
        local_hostname
    } else {
        target
    }
}

/// A session with an identifier is listed under a host.
pub open spec fn is_listed_on(sessions: Seq<Session>, host: Seq<char>, id: Seq<char>) -> bool {
    exists|i: int|
        0 <= i < sessions.len() && (#[trigger] sessions[i]).host@ == host && sessions[i].id@ == id
}

/// One of the sessions has an identifier.
pub open spec fn names(sessions: Seq<Session>, id: Seq<char>) -> bool {
    exists|i: int| 0 <= i < sessions.len() && (#[trigger] sessions[i]).id@ == id
}

// ---- answers ----

/// A host that answered is reachable, is no longer waited for, has no error, is asked for
/// details next and counts as online with no failure. Nothing of this changes for another host.
pub proof fn an_answer_makes_a_host_reachable(
    v: PickerView,
    target: String,
    sessions: Vec<Session>,
    hash: u64,
    clock: Clock,
    other: Seq<char>,
)
    requires
        within_clock(clock.monotonic_millis),
    ensures
        ({
            let after = v.applied(
                RefreshEvent::Basic { generation: v.refresh_generation, target, sessions },
                hash,
                clock,
            );
            &&& !after.pending_hosts.contains(target@)
            &&& !after.initial_targets_remaining.contains(target@)
            &&& !after.host_errors.dom().contains(target@)
            &&& after.reachable_hosts.contains(target@)
            &&& after.enriching_hosts.contains(target@)
            &&& v.reconnect.dom().contains(target@) ==> {
                let state = after.reconnect[target@];
                &&& state.phase is Online
                &&& state.consecutive_failures == 0
                &&& state.next_attempt_at == Some(
                    (clock.monotonic_millis + if v.is_important(target@) {
                        60_000int
                    } else {
                        180_000int
                    }) as u64,
                )
            }
            &&& after.reconnect.dom() == v.reconnect.dom()
            &&& other != target@ ==> {
                &&& after.pending_hosts.contains(other) <==> v.pending_hosts.contains(other)
                &&& after.reachable_hosts.contains(other) <==> v.reachable_hosts.contains(other)
                &&& after.enriching_hosts.contains(other) <==> v.enriching_hosts.contains(other)
                &&& after.host_errors.dom().contains(other) <==> v.host_errors.dom().contains(other)
                &&& after.reconnect[other] == v.reconnect[other]
            }
        }),
{
    let after = v.applied(
        RefreshEvent::Basic { generation: v.refresh_generation, target, sessions },
        hash,
        clock,
    );
    assert(after.reconnect.dom() =~= v.reconnect.dom());
}

/// After an answer, what is shown of the host as of now is exactly what the host told of;
/// other hosts keep what they had.
pub proof fn an_answer_says_what_is_current(
    v: PickerView,
    target: String,
    sessions: Vec<Session>,
    hash: u64,
    clock: Clock,
    id: Seq<char>,
)
    ensures
        ({
            let after = v.applied(
                RefreshEvent::Basic { generation: v.refresh_generation, target, sessions },
                hash,
                clock,
            );
            let host = seen_as(target@, v.local_hostname);
            after.fresh_ids.contains(id) <==> names(sessions@, id) || (v.fresh_ids.contains(id)
                && !is_listed_on(v.active, host, id) && !is_listed_on(v.settled, host, id))
        }),
{
    let host = seen_as(target@, v.local_hostname);
    let cached = PickerView {
        active: crate::picker::refresh::rested_on(v.active, host),
        settled: crate::picker::refresh::rested_on(v.settled, host),
        ..v
    };
    let complete = sessions@.map_values(|session: Session| cached.with_cached_message(session));
    lemma_answer_records(v, target, sessions, hash, clock);
    let taken = choose|taken: Seq<Session>| #[trigger]
        completes(v, sessions@, taken) && v.host_answered(target@, sessions@, clock).fresh_ids
            == v.with_host_cached(target@).fresh_ids.union(
            crate::picker::refresh::ids_of(taken),
        );
    let ids = taken.map_values(|session: Session| session.id@);
    if names(sessions@, id) {
        let i = choose|i: int|
            0 <= i < sessions@.len() && (#[trigger] sessions@[i]).id@ == id;
        assert(taken[i].id@ == id);
        assert(ids[i] == id);
        assert(ids.to_set().contains(id));
    }
    if ids.to_set().contains(id) {
        let i = choose|i: int| 0 <= i < ids.len() && ids[i] == id;
        assert(taken[i].id@ == id);
        assert(sessions@[i].id@ == id);
    }
}

/// The sessions of an answer, with the message that is known of each that came without one.
pub open spec fn completes(v: PickerView, sessions: Seq<Session>, taken: Seq<Session>) -> bool {
    &&& taken.len() == sessions.len()
    &&& forall|i: int|
        0 <= i < sessions.len() ==> {
            let told = #[trigger] sessions[i];
            &&& taken[i] == Session { last_message: taken[i].last_message, ..told }
            &&& told.last_message@.len() > 0 ==> taken[i].last_message == told.last_message
            &&& told.last_message@.len() == 0 ==> {
                ||| taken[i].last_message == told.last_message && !names(v.active, told.id@)
                    && !names(v.settled, told.id@)
                ||| exists|j: int|
                    0 <= j < v.active.len() && (#[trigger] v.active[j]).id@ == told.id@
                        && taken[i].last_message == v.active[j].last_message
                ||| exists|j: int|
                    0 <= j < v.settled.len() && (#[trigger] v.settled[j]).id@ == told.id@
                        && taken[i].last_message == v.settled[j].last_message && !names(
                        v.active,
                        told.id@,
                    )
            }
        }
}

proof fn lemma_first(sessions: Seq<Session>, id: Seq<char>)
    ensures
        crate::picker::first_with_id(sessions, id) is None <==> !names(sessions, id),
        crate::picker::first_with_id(sessions, id) matches Some(session) ==> exists|j: int|
            0 <= j < sessions.len() && (#[trigger] sessions[j]).id@ == id && sessions[j] == session,
    decreases sessions.len(),
{
    if sessions.len() > 0 {
        if sessions[0].id@ == id {
        } else {
            let rest = sessions.drop_first();
            lemma_first(rest, id);
            if names(sessions, id) {
                let i = choose|i: int|
                    0 <= i < sessions.len() && (#[trigger] sessions[i]).id@ == id;
                assert(rest[i - 1] == sessions[i]);
            }
            if let Some(session) = crate::picker::first_with_id(rest, id) {
                let j = choose|j: int|
                    0 <= j < rest.len() && (#[trigger] rest[j]).id@ == id && rest[j] == session;
                assert(sessions[j + 1] == session);
            }
        }
    }
}

proof fn lemma_message(v: PickerView, cached: PickerView, told: Session)
    requires
        cached.active.len() == v.active.len(),
        cached.settled.len() == v.settled.len(),
        forall|j: int|
            0 <= j < v.active.len() ==> (#[trigger] cached.active[j]).id == v.active[j].id
                && cached.active[j].last_message == v.active[j].last_message,
        forall|j: int|
            0 <= j < v.settled.len() ==> (#[trigger] cached.settled[j]).id == v.settled[j].id
                && cached.settled[j].last_message == v.settled[j].last_message,
        told.last_message@.len() == 0,
    ensures
        ({
            let taken = cached.with_cached_message(told);
            ||| taken.last_message == told.last_message && !names(v.active, told.id@) && !names(
                v.settled,
                told.id@,
            )
            ||| exists|j: int|
                0 <= j < v.active.len() && (#[trigger] v.active[j]).id@ == told.id@
                    && taken.last_message == v.active[j].last_message
            ||| exists|j: int|
                0 <= j < v.settled.len() && (#[trigger] v.settled[j]).id@ == told.id@
                    && taken.last_message == v.settled[j].last_message && !names(
                    v.active,
                    told.id@,
                )
        }),
{
    let id = told.id@;
    lemma_first(cached.active, id);
    lemma_first(cached.settled, id);
    if names(v.active, id) {
        let i = choose|i: int| 0 <= i < v.active.len() && (#[trigger] v.active[i]).id@ == id;
        assert(cached.active[i].id@ == id);
        assert(names(cached.active, id));
        let found = crate::picker::first_with_id(cached.active, id)->0;
        let j = choose|j: int|
            0 <= j < cached.active.len() && (#[trigger] cached.active[j]).id@ == id
                && cached.active[j] == found;
        assert(v.active[j].id@ == id);
    } else {
        assert(!names(cached.active, id)) by {
            if names(cached.active, id) {
                let i = choose|i: int|
                    0 <= i < cached.active.len() && (#[trigger] cached.active[i]).id@ == id;
                assert(v.active[i].id@ == id);
            }
        }
        if names(v.settled, id) {
            let i = choose|i: int| 0 <= i < v.settled.len() && (#[trigger] v.settled[i]).id@ == id;
            assert(cached.settled[i].id@ == id);
            assert(names(cached.settled, id));
            let found = crate::picker::first_with_id(cached.settled, id)->0;
            let j = choose|j: int|
                0 <= j < cached.settled.len() && (#[trigger] cached.settled[j]).id@ == id
                    && cached.settled[j] == found;
            assert(v.settled[j].id@ == id);
        } else {
            assert(!names(cached.settled, id)) by {
                if names(cached.settled, id) {
                    let i = choose|i: int|
                        0 <= i < cached.settled.len() && (#[trigger] cached.settled[i]).id@ == id;
                    assert(v.settled[i].id@ == id);
                }
            }
        }
    }
}

proof fn lemma_answer_records(
    v: PickerView,
    target: String,
    sessions: Vec<Session>,
    hash: u64,
    clock: Clock,
)
    ensures
        exists|taken: Seq<Session>| #[trigger]
            completes(v, sessions@, taken) && v.host_answered(
                target@,
                sessions@,
                clock,
            ).fresh_ids == v.with_host_cached(target@).fresh_ids.union(
                crate::picker::refresh::ids_of(taken),
            ) && v.host_answered(target@, sessions@, clock).store == recorded(
                v.store,
                taken,
                stored_seconds(clock.unix_seconds),
            ),
{
    let noted = PickerView {
        pending_hosts: v.pending_hosts.remove(target@),
        initial_targets_remaining: v.initial_targets_remaining.remove(target@),
        host_errors: v.host_errors.remove(target@),
        reachable_hosts: v.reachable_hosts.insert(target@),
        enriching_hosts: v.enriching_hosts.insert(target@),
        last_activity_poll: v.last_activity_poll.remove(target@),
        ..v
    };
    let reconnected = if noted.reconnect.dom().contains(target@) {
        PickerView {
            reconnect: noted.reconnect.insert(
                target@,
                crate::reconnect::reached(clock.monotonic_millis, noted.is_important(target@)),
            ),
            ..noted
        }
    } else {
        noted
    };
    let cached = reconnected.with_host_cached(target@);
    let taken = sessions@.map_values(|session: Session| cached.with_cached_message(session));
    assert forall|i: int| 0 <= i < sessions@.len() implies {
        let told = #[trigger] sessions@[i];
        &&& taken[i] == Session { last_message: taken[i].last_message, ..told }
        &&& told.last_message@.len() > 0 ==> taken[i].last_message == told.last_message
        &&& told.last_message@.len() == 0 ==> {
            ||| taken[i].last_message == told.last_message && !names(v.active, told.id@) && !names(
                v.settled,
                told.id@,
            )
            ||| exists|j: int|
                0 <= j < v.active.len() && (#[trigger] v.active[j]).id@ == told.id@
                    && taken[i].last_message == v.active[j].last_message
            ||| exists|j: int|
                0 <= j < v.settled.len() && (#[trigger] v.settled[j]).id@ == told.id@
                    && taken[i].last_message == v.settled[j].last_message && !names(
                    v.active,
                    told.id@,
                )
        }
    } by {
        let told = sessions@[i];
        assert(taken[i] == cached.with_cached_message(told));
        if told.last_message@.len() == 0 {
            lemma_message(v, cached, told);
        }
    }
    assert(completes(v, sessions@, taken));
}

/// An answer is recorded as it came, but that a session without a message keeps the one that is
/// known of it.
pub proof fn an_answer_is_recorded(
    v: PickerView,
    target: String,
    sessions: Vec<Session>,
    hash: u64,
    clock: Clock,
)
    ensures
        exists|taken: Seq<Session>| #[trigger]
            completes(v, sessions@, taken) && v.applied(
                RefreshEvent::Basic { generation: v.refresh_generation, target, sessions },
                hash,
                clock,
            ).store == ({
                let now = stored_seconds(clock.unix_seconds);
                settled(recorded(v.store, taken, now), stale_cutoff(now, 604_800), now)
            }),
{
    lemma_answer_records(v, target, sessions, hash, clock);
}

/// Where a host had failed before it answered, the user is told, once, that it is back and how
/// many sessions it told of; a host that had not failed is not announced.
pub proof fn a_recovery_is_announced(
    v: PickerView,
    target: String,
    sessions: Vec<Session>,
    hash: u64,
    clock: Clock,
)
    requires
        sessions@.len() <= usize::MAX,
    ensures
        ({
            let after = v.applied(
                RefreshEvent::Basic { generation: v.refresh_generation, target, sessions },
                hash,
                clock,
            );
            let had_failed = v.reconnect.dom().contains(target@)
                && v.reconnect[target@].consecutive_failures > 0;
            let told = EffectView::NotifyRecovered {
                host: seen_as(target@, v.local_hostname),
                session_count: sessions@.len() as usize,
            };
            &&& had_failed ==> after.effects.len() > 0 && after.effects.last() == told
            &&& had_failed ==> after.notice == Some(
                (
                    seen_as(target@, v.local_hostname) + " is back online · restored "@ + decimal(
                        sessions@.len(),
                    ) + " sessions"@,
                    clock.monotonic_millis,
                ),
            )
            &&& !had_failed && after.effects.len() == v.effects.len() + 1 ==> !(
            after.effects.last() is NotifyRecovered)
        }),
{
    let now = stored_seconds(clock.unix_seconds);
    lemma_answer_records(v, target, sessions, hash, clock);
    let taken = choose|taken: Seq<Session>| #[trigger]
        completes(v, sessions@, taken) && v.host_answered(target@, sessions@, clock).store
            == recorded(v.store, taken, now);
    let had_failed = v.reconnect.dom().contains(target@)
        && v.reconnect[target@].consecutive_failures > 0;
    if !had_failed {
        lemma_told_effects(v, target@, sessions@, clock);
    }
}

proof fn lemma_transition_effects(
    transitions: Seq<crate::store::SessionTransition>,
    watching: bool,
    k: int,
)
    requires
        0 <= k < crate::picker::refresh::transition_effects(transitions, watching).len(),
    ensures
        !(crate::picker::refresh::transition_effects(transitions, watching)[k]
            is NotifyRecovered),
    decreases transitions.len(),
{
    if transitions.len() > 0 {
        let before = crate::picker::refresh::transition_effects(transitions.drop_last(), watching);
        if k < before.len() {
            lemma_transition_effects(transitions.drop_last(), watching, k);
        }
    }
}

proof fn lemma_told_effects(v: PickerView, target: Seq<char>, sessions: Seq<Session>, clock: Clock)
    requires
        !(v.reconnect.dom().contains(target) && v.reconnect[target].consecutive_failures > 0),
    ensures
        v.host_answered(target, sessions, clock).effects.len() > v.effects.len() ==> !(
        v.host_answered(target, sessions, clock).effects.last() is NotifyRecovered),
{
    let after = v.host_answered(target, sessions, clock);
    if after.effects.len() > v.effects.len() {
        let noted = PickerView {
            pending_hosts: v.pending_hosts.remove(target),
            initial_targets_remaining: v.initial_targets_remaining.remove(target),
            host_errors: v.host_errors.remove(target),
            reachable_hosts: v.reachable_hosts.insert(target),
            enriching_hosts: v.enriching_hosts.insert(target),
            last_activity_poll: v.last_activity_poll.remove(target),
            ..v
        };
        let reconnected = if noted.reconnect.dom().contains(target) {
            PickerView {
                reconnect: noted.reconnect.insert(
                    target,
                    crate::reconnect::reached(clock.monotonic_millis, noted.is_important(target)),
                ),
                ..noted
            }
        } else {
            noted
        };
        let cached = reconnected.with_host_cached(target);
        let taken = sessions.map_values(|session: Session| cached.with_cached_message(session));
        let transitions = crate::store::recorded_transitions(
            v.store,
            taken,
            stored_seconds(clock.unix_seconds),
        );
        let told = crate::picker::refresh::transition_effects(transitions, v.watching);
        assert(after.effects == v.effects + told);
        lemma_transition_effects(transitions, v.watching, told.len() - 1);
    }
}

/// Details that came late do not undo what was seen of the process meanwhile: a session that is
/// known to run keeps its owner, its pane and its activity; any other is taken as it came.
pub proof fn details_keep_the_live_state(
    v: PickerView,
    target: String,
    sessions: Vec<Session>,
    hash: u64,
    clock: Clock,
)
    ensures
        ({
            let after = v.applied(
                RefreshEvent::Detailed { generation: v.refresh_generation, target, sessions },
                hash,
                clock,
            );
            let now = stored_seconds(clock.unix_seconds);
            &&& !after.enriching_hosts.contains(target@)
            &&& after.pending_hosts == v.pending_hosts
            &&& after.host_errors == v.host_errors
            &&& after.reconnect == v.reconnect
            &&& exists|taken: Seq<Session>| #[trigger]
                keeps_live_state(v, sessions@, taken) && after.store == settled(
                    recorded(v.store, taken, now),
                    stale_cutoff(now, 604_800),
                    now,
                )
        }),
{
    let noted = PickerView { enriching_hosts: v.enriching_hosts.remove(target@), ..v };
    let taken = sessions@.map_values(|session: Session| noted.with_live_state(session));
    assert forall|i: int| 0 <= i < sessions@.len() implies is_kept_live(
        v,
        #[trigger] sessions@[i],
        taken[i],
    ) by {
        lemma_first(v.active, sessions@[i].id@);
        lemma_first(v.settled, sessions@[i].id@);
        lemma_live_state(v, noted, sessions@[i]);
    }
    assert(keeps_live_state(v, sessions@, taken));
}

/// A session as it came, with the live state of the one that is listed under its identifier
/// where that one runs.
pub open spec fn is_kept_live(v: PickerView, told: Session, taken: Session) -> bool {
    ||| taken == told && !names(v.active, told.id@) && !names(v.settled, told.id@)
    ||| exists|j: int|
        0 <= j < v.active.len() && (#[trigger] v.active[j]).id@ == told.id@ && is_live_from(
            v.active[j],
            told,
            taken,
        )
    ||| !names(v.active, told.id@) && exists|j: int|
        0 <= j < v.settled.len() && (#[trigger] v.settled[j]).id@ == told.id@ && is_live_from(
            v.settled[j],
            told,
            taken,
        )
}

/// What came, with the live state of what was listed where that runs.
pub open spec fn is_live_from(listed: Session, told: Session, taken: Session) -> bool {
    if listed.runtime is Resumable {
        taken == told
    } else {
        &&& taken.runtime == listed.runtime
        &&& taken.tmux == listed.tmux
        &&& taken.activity == listed.activity
        &&& taken == Session {
            runtime: taken.runtime,
            tmux: taken.tmux,
            activity: taken.activity,
            ..told
        }
    }
}

/// Each session of an answer is taken so.
pub open spec fn keeps_live_state(
    v: PickerView,
    sessions: Seq<Session>,
    taken: Seq<Session>,
) -> bool {
    &&& taken.len() == sessions.len()
    &&& forall|i: int| 0 <= i < sessions.len() ==> is_kept_live(v, #[trigger] sessions[i], taken[i])
}

proof fn lemma_live_state(v: PickerView, noted: PickerView, told: Session)
    requires
        noted.active == v.active,
        noted.settled == v.settled,
    ensures
        is_kept_live(v, told, noted.with_live_state(told)),
{
    lemma_first(v.active, told.id@);
    lemma_first(v.settled, told.id@);
}

/// A host that failed is not reachable, is no longer waited for, and has the error that it
/// failed with. It is asked again after a while, or, where only the user can mend what failed,
/// not before the user asks. Its sessions stay listed, at rest.
pub proof fn a_failure_is_noted(
    v: PickerView,
    target: String,
    error: String,
    hash: u64,
    clock: Clock,
    other: Seq<char>,
)
    requires
        within_clock(clock.monotonic_millis),
    ensures
        ({
            let after = v.applied(
                RefreshEvent::Failed { generation: v.refresh_generation, target, error },
                hash,
                clock,
            );
            let state = after.reconnect[target@];
            &&& !after.pending_hosts.contains(target@)
            &&& !after.initial_targets_remaining.contains(target@)
            &&& !after.enriching_hosts.contains(target@)
            &&& !after.activity_pending.contains(target@)
            &&& !after.reachable_hosts.contains(target@)
            &&& after.host_errors.dom().contains(target@) && after.host_errors[target@] == error
            &&& v.reconnect.dom().contains(target@) ==> {
                &&& state.phase is Blocked <==> only_the_user_mends(error@)
                &&& state.phase is Backoff <==> !only_the_user_mends(error@)
                &&& state.phase is Blocked ==> state.next_attempt_at is None
                &&& state.phase is Backoff ==> (state.next_attempt_at matches Some(at) && at
                    > clock.monotonic_millis && at <= clock.monotonic_millis + 144_000)
                &&& v.reconnect[target@].consecutive_failures < usize::MAX
                    ==> state.consecutive_failures == v.reconnect[target@].consecutive_failures + 1
            }
            &&& other != target@ ==> after.reconnect[other] == v.reconnect[other] && (
            after.host_errors.dom().contains(other) <==> v.host_errors.dom().contains(other))
        }),
{
    let known = v.reconnect.dom().contains(target@);
    if known {
        let failures = crate::reconnect::one_more(v.reconnect[target@].consecutive_failures);
        jitter_is_within_a_fifth(base_delay(failures, true), hash);
        jitter_is_within_a_fifth(base_delay(failures, false), hash);
    }
}

/// The message of a failure that passes only once the user did something: a refused login, an
/// unknown or changed host key, or a missing identity.
pub open spec fn only_the_user_mends(message: Seq<char>) -> bool {
    let lower = ascii_lower(message);
    ||| contains_text(lower, "permission denied"@)
    ||| contains_text(lower, "host key verification failed"@)
    ||| contains_text(lower, "remote host identification has changed"@)
    ||| contains_text(lower, "no such identity"@)
    ||| contains_text(lower, "authentication failed"@)
}

/// A failure blocks a host exactly where its message says, in any case of its letters, that a
/// login was refused, that the host's key does not fit, or that an identity is missing.
pub proof fn refusals_block_a_host(message: &str, r: FailureClass)
    requires
        call_ensures(classify_failure, (message,), r),
    ensures
        r is Blocked <==> only_the_user_mends(message@),
        r is Transient <==> !only_the_user_mends(message@),
{
}

/// Each failure in a row makes the wait longer, up to half a minute for a host that matters and
/// two minutes for another; a host that matters never waits longer than one that does not.
pub proof fn waits_grow_with_failures(failures: usize)
    ensures
        base_delay(1, true) == 2_000 && base_delay(1, false) == 5_000,
        failures < 5 && 1 <= failures ==> base_delay(failures, true) < base_delay(
            (failures + 1) as usize,
            true,
        ),
        failures < 5 && 1 <= failures ==> base_delay(failures, false) < base_delay(
            (failures + 1) as usize,
            false,
        ),
        failures >= 5 ==> base_delay(failures, true) == 30_000 && base_delay(failures, false)
            == 120_000,
        base_delay(failures, true) < base_delay(failures, false),
        base_delay(2, true) == 5_000 && base_delay(3, true) == 10_000 && base_delay(4, true)
            == 20_000,
        base_delay(2, false) == 15_000 && base_delay(3, false) == 30_000 && base_delay(4, false)
            == 60_000,
{
}

// ---- live observations ----

/// What a look at the processes of a host says of a session. One that was seen there has the
/// owner and the pane that were seen; it works where it was seen to work, unless it waits for the
/// user; it is completed where it was seen so; anything else that was seen leaves its activity.
/// One that was not seen is at rest, and completed where it was working. A session of another
/// host, or one that is not current, stays as it is.
pub proof fn a_look_updates_a_session(
    session: Session,
    host: Seq<char>,
    fresh: Set<Seq<char>>,
    observations: Map<Seq<char>, LiveObservation>,
)
    ensures
        ({
            let after = live_session(session, host, fresh, observations);
            let concerns = session.host@ == host && fresh.contains(session.id@);
            let seen = observations.dom().contains(session.id@);
            let saw = observations[session.id@];
            &&& !concerns ==> after == session
            &&& after == Session {
                runtime: after.runtime,
                tmux: after.tmux,
                activity: after.activity,
                ..session
            }
            &&& concerns && seen ==> after.runtime == saw.runtime && after.tmux == saw.tmux
            &&& concerns && seen && saw.activity is Completed ==> after.activity is Completed
            &&& concerns && seen && saw.activity is Working ==> (if session.activity
                is WaitingApproval || session.activity is WaitingInput {
                after.activity == session.activity
            } else {
                after.activity is Working
            })
            &&& concerns && seen && !(saw.activity is Completed) && !(saw.activity is Working)
                ==> after.activity == session.activity
            &&& concerns && !seen ==> after.runtime is Resumable
            &&& concerns && !seen && !(session.runtime is Resumable) ==> after.tmux is None && (
            if session.activity is Working {
                after.activity is Completed
            } else {
                after.activity == session.activity
            })
            &&& concerns && !seen && session.runtime is Resumable ==> after == session
        }),
{
}

/// A look at a host updates each listed session so, in its place, and the host is no longer
/// waited for.
pub proof fn a_look_reaches_every_listed_session(
    v: PickerView,
    target: String,
    observations: crate::keyed::StringMap<LiveObservation>,
    hash: u64,
    clock: Clock,
    i: int,
)
    ensures
        ({
            let after = v.applied(
                RefreshEvent::Activity {
                    generation: v.refresh_generation,
                    target,
                    observations: Ok(observations),
                },
                hash,
                clock,
            );
            let host = seen_as(target@, v.local_hostname);
            &&& !after.activity_pending.contains(target@)
            &&& after.active.len() == v.active.len()
            &&& after.settled.len() == v.settled.len()
            &&& 0 <= i < v.active.len() ==> after.active[i] == live_session(
                v.active[i],
                host,
                v.fresh_ids,
                observations@,
            )
            &&& 0 <= i < v.settled.len() ==> after.settled[i] == live_session(
                v.settled[i],
                host,
                v.fresh_ids,
                observations@,
            )
            &&& after.fresh_ids == v.fresh_ids
        }),
{
    let noted = PickerView { activity_pending: v.activity_pending.remove(target@), ..v };
    lemma_look(noted, target@, observations@, clock);
}

pub proof fn lemma_look(
    v: PickerView,
    target: Seq<char>,
    observations: Map<Seq<char>, LiveObservation>,
    clock: Clock,
)
    ensures
        ({
            let after = v.observed(target, observations, clock);
            let host = seen_as(target, v.local_hostname);
            &&& after.active == v.active.map_values(
                |session: Session| live_session(session, host, v.fresh_ids, observations),
            )
            &&& after.settled == v.settled.map_values(
                |session: Session| live_session(session, host, v.fresh_ids, observations),
            )
            &&& after.fresh_ids == v.fresh_ids
            &&& after.activity_pending == v.activity_pending
        }),
{
    let after = v.observed(target, observations, clock);
    let host = seen_as(target, v.local_hostname);
    assert(after.active =~= v.active.map_values(
        |session: Session| live_session(session, host, v.fresh_ids, observations),
    ));
    assert(after.settled =~= v.settled.map_values(
        |session: Session| live_session(session, host, v.fresh_ids, observations),
    ));
}

/// A look that failed only ends the wait for it.
pub proof fn a_failed_look_changes_nothing(
    v: PickerView,
    target: String,
    error: String,
    hash: u64,
    clock: Clock,
)
    ensures
        v.applied(
            RefreshEvent::Activity {
                generation: v.refresh_generation,
                target,
                observations: Err(error),
            },
            hash,
            clock,
        ) == (PickerView { activity_pending: v.activity_pending.remove(target@), ..v }),
{
}

/// What a look changed is recorded, and nothing else: a session whose owner, pane or activity is
/// another one than before.
pub proof fn a_look_records_what_changed(
    v: PickerView,
    target: Seq<char>,
    observations: Map<Seq<char>, LiveObservation>,
    clock: Clock,
)
    ensures
        ({
            let after = v.observed(target, observations, clock);
            let host = seen_as(target, v.local_hostname);
            exists|told: Seq<Session>| #[trigger]
                is_what_changed(v, host, observations, told) && after.store == (if told.len() == 0 {
                    v.store
                } else {
                    recorded(v.store, told, stored_seconds(clock.unix_seconds))
                })
        }),
{
    let host = seen_as(target, v.local_hostname);
    let active = live_updates(v.active, host, v.fresh_ids, observations);
    let archived = live_updates(v.settled, host, v.fresh_ids, observations);
    let told = active + archived;
    assert forall|session: Session| #[trigger] told.contains(session) <==> (changed_to(
        v.active,
        host,
        v.fresh_ids,
        observations,
        session,
    ) || changed_to(v.settled, host, v.fresh_ids, observations, session)) by {
        lemma_changes(v.active, host, v.fresh_ids, observations, session);
        lemma_changes(v.settled, host, v.fresh_ids, observations, session);
        if told.contains(session) {
            let k = choose|k: int| 0 <= k < told.len() && told[k] == session;
            if k < active.len() {
                assert(active[k] == session);
            } else {
                assert(archived[k - active.len()] == session);
            }
        }
        if active.contains(session) {
            let k = choose|k: int| 0 <= k < active.len() && active[k] == session;
            assert(told[k] == session);
        }
        if archived.contains(session) {
            let k = choose|k: int| 0 <= k < archived.len() && archived[k] == session;
            assert(told[active.len() + k] == session);
        }
    }
    assert(is_what_changed(v, host, observations, told));
}

/// One of the sessions is seen as this one now, and stood otherwise before.
pub open spec fn changed_to(
    sessions: Seq<Session>,
    host: Seq<char>,
    fresh: Set<Seq<char>>,
    observations: Map<Seq<char>, LiveObservation>,
    now: Session,
) -> bool {
    exists|i: int|
        0 <= i < sessions.len() && now == live_session(
            #[trigger] sessions[i],
            host,
            fresh,
            observations,
        ) && stood_otherwise(sessions[i], now)
}

/// The owner, the pane or the activity of a session is another one.
pub open spec fn stood_otherwise(before: Session, now: Session) -> bool {
    ||| before.runtime != now.runtime
    ||| before.activity != now.activity
    ||| (before.tmux is Some) != (now.tmux is Some)
    ||| before.tmux is Some && now.tmux is Some && (before.tmux->0.session@ != now.tmux->0.session@
        || before.tmux->0.pane@ != now.tmux->0.pane@)
}

/// The sessions that a look changed.
pub open spec fn is_what_changed(
    v: PickerView,
    host: Seq<char>,
    observations: Map<Seq<char>, LiveObservation>,
    told: Seq<Session>,
) -> bool {
    forall|session: Session| #[trigger]
        told.contains(session) <==> (changed_to(
            v.active,
            host,
            v.fresh_ids,
            observations,
            session,
        ) || changed_to(v.settled, host, v.fresh_ids, observations, session))
}

proof fn lemma_changes(
    sessions: Seq<Session>,
    host: Seq<char>,
    fresh: Set<Seq<char>>,
    observations: Map<Seq<char>, LiveObservation>,
    session: Session,
)
    ensures
        live_updates(sessions, host, fresh, observations).contains(session) <==> changed_to(
            sessions,
            host,
            fresh,
            observations,
            session,
        ),
    decreases sessions.len(),
{
    let all = live_updates(sessions, host, fresh, observations);
    if sessions.len() > 0 {
        let front = sessions.drop_last();
        let before = live_updates(front, host, fresh, observations);
        let last = live_session(sessions.last(), host, fresh, observations);
        lemma_changes(front, host, fresh, observations, session);
        if all.contains(session) {
            let k = choose|k: int| 0 <= k < all.len() && all[k] == session;
            if k < before.len() {
                assert(before[k] == session);
                let i = choose|i: int|
                    0 <= i < front.len() && session == live_session(
                        #[trigger] front[i],
                        host,
                        fresh,
                        observations,
                    ) && stood_otherwise(front[i], session);
                assert(sessions[i] == front[i]);
            } else {
                assert(sessions[sessions.len() - 1] == sessions.last());
                assert(stood_otherwise(sessions[sessions.len() - 1], session));
            }
        }
        if changed_to(sessions, host, fresh, observations, session) {
            let i = choose|i: int|
                0 <= i < sessions.len() && session == live_session(
                    #[trigger] sessions[i],
                    host,
                    fresh,
                    observations,
                ) && stood_otherwise(sessions[i], session);
            if i < front.len() {
                assert(front[i] == sessions[i]);
                let k = choose|k: int| 0 <= k < before.len() && before[k] == session;
                assert(all[k] == session);
            } else {
                assert(all.last() == session);
            }
        }
    }
}

// ---- what is listed ----

/// After an answer or a failure the lists are those of the store: one of what is not archived
/// and one of what is. A session that is not current is listed at rest; one that is, as it was
/// stored.
pub proof fn the_lists_are_those_of_the_store(v: PickerView, clock: Clock, i: int)
    ensures
        ({
            let after = v.reloaded(clock);
            let active = loaded(after.store, false);
            let archived = loaded(after.store, true);
            &&& after.active.len() == active.len()
            &&& after.settled.len() == archived.len()
            &&& 0 <= i < active.len() ==> (if v.fresh_ids.contains(active[i].id@) {
                after.active[i] == active[i]
            } else {
                after.active[i].runtime is Resumable && after.active[i].tmux is None
                    && after.active[i] == Session {
                    runtime: after.active[i].runtime,
                    tmux: None,
                    ..active[i]
                }
            })
            &&& 0 <= i < archived.len() ==> (if v.fresh_ids.contains(archived[i].id@) {
                after.settled[i] == archived[i]
            } else {
                after.settled[i].runtime is Resumable && after.settled[i].tmux is None
                    && after.settled[i] == Session {
                    runtime: after.settled[i].runtime,
                    tmux: None,
                    ..archived[i]
                }
            })
            &&& forall|id: Seq<char>| #[trigger]
                after.unread_ids.contains(id) <==> unread_ids(after.store).contains(id)
        }),
{
}

/// The details of a session are asked for where none are known, where no message is, or where
/// the session was used or changed since.
pub proof fn details_are_asked_for_what_changed(
    session: Session,
    cached: Map<Seq<char>, CachedDetail>,
)
    ensures
        ({
            let id = session.native_session_id@;
            let known = cached[id];
            !needs_detail(session, cached) <==> cached.dom().contains(id) && known.has_message
                && known.last_interaction == session.last_interaction_unix_seconds && known.updated
                == session.updated_unix_seconds
        }),
{
}

// ---- when hosts are asked ----

/// A host matters where it is this one, where it is the one that is shown, where the cursor
/// stands on one of its sessions, and where one of its active sessions is at work or waits.
pub proof fn hosts_that_matter(v: PickerView, target: Seq<char>)
    requires
        v.wf(),
        target != v.local_hostname,
    ensures
        v.is_important(target) <==> {
            let host = seen_as(target, v.local_hostname);
            ||| target == "local"@
            ||| v.host_filter == host
            ||| exists|session: Session| stands_on(v, session) && session.host@ == host
            ||| exists|i: int|
                0 <= i < v.active.len() && (#[trigger] v.active[i]).host@ == host && (
                v.active[i].activity is Working || v.active[i].activity is WaitingApproval
                    || v.active[i].activity is WaitingInput || v.active[i].activity is Failed)
        },
{
    let host = seen_as(target, v.local_hostname);
    if let Some(session) = v.chosen_session() {
        assert(stands_on(v, session));
    }
    if exists|session: Session| stands_on(v, session) && session.host@ == host {
        let session = choose|session: Session| stands_on(v, session) && session.host@ == host;
        assert(v.chosen_session() == Some(session));
    }
}

/// A host is asked again once the time of its next attempt has come, and not while an answer or
/// the details of it are waited for.
pub proof fn hosts_are_asked_when_they_are_due(v: PickerView, target: Seq<char>, now: u64)
    ensures
        v.is_due(target, now) <==> {
            &&& !v.pending_hosts.contains(target)
            &&& !v.enriching_hosts.contains(target)
            &&& v.reconnect.dom().contains(target)
            &&& v.reconnect[target].next_attempt_at matches Some(at) && at <= now
        },
{
}

/// Hosts that matter are asked before those that do not, and otherwise they are asked in the
/// order of their names.
pub proof fn hosts_that_matter_are_asked_first(v: PickerView, now: u64, i: int, j: int)
    requires
        0 <= i < j < v.due_targets(now).len(),
    ensures
        ({
            let due = v.due_targets(now);
            &&& v.is_important(due[j]) ==> v.is_important(due[i])
            &&& v.is_important(due[i]) == v.is_important(due[j]) ==> !text_lt(due[j], due[i])
        }),
{
    let targets = v.discovery_targets.filter(|target: Seq<char>| v.is_due(target, now));
    let places = targets.map_values(|target: Seq<char>| (v.is_important(target), target));
    let order = crate::picker::refresh::asking_order();
    let out = crate::order::ranked_by(places, order);
    assert forall|k: int| 0 <= k < out.len() implies (#[trigger] out[k]).0 == v.is_important(
        out[k].1,
    ) by {
        crate::order::ranked_by_contains(places, order, out[k]);
        assert(out.contains(out[k]));
        let m = choose|m: int| 0 <= m < places.len() && places[m] == out[k];
        assert(places[m] == (v.is_important(targets[m]), targets[m]));
    }
    assert forall|a: (bool, Seq<char>), b: (bool, Seq<char>)| #[trigger]
        order(a, b) || order(b, a) by {
        lemma_asked_agrees(a, b);
        lemma_asked_agrees(b, a);
    }
    assert forall|a: (bool, Seq<char>), b: (bool, Seq<char>), c: (bool, Seq<char>)|
        #[trigger] order(a, b) && #[trigger] order(b, c) implies order(a, c) by {
        lemma_asked_agrees(a, b);
        lemma_asked_agrees(b, c);
        lemma_asked_agrees(a, c);
        lemma_asked_transitive(a, b, c);
    }
    crate::order::ranked_by_is_in_order(places, order, i, j);
    lemma_asked_agrees(out[i], out[j]);
    let due = v.due_targets(now);
    assert(due[i] == out[i].1 && due[j] == out[j].1);
}

/// A host that matters is asked before one that does not; two that do, or two that do not, in
/// the order of their names.
pub open spec fn is_asked_before(a: (bool, Seq<char>), b: (bool, Seq<char>)) -> bool {
    (a.0 && !b.0) || (a.0 == b.0 && !text_lt(b.1, a.1))
}

proof fn lemma_asked_transitive(
    a: (bool, Seq<char>),
    b: (bool, Seq<char>),
    c: (bool, Seq<char>),
)
    requires
        is_asked_before(a, b),
        is_asked_before(b, c),
    ensures
        is_asked_before(a, c),
{
    text_lt_total(a.1, b.1);
    text_lt_total(b.1, c.1);
    if text_lt(c.1, a.1) {
        if text_lt(a.1, b.1) {
            text_lt_transitive(c.1, a.1, b.1);
        }
    }
}

proof fn lemma_asked_agrees(a: (bool, Seq<char>), b: (bool, Seq<char>))
    ensures
        crate::picker::refresh::asking_order()(a, b) == is_asked_before(a, b),
        is_asked_before(a, b) || is_asked_before(b, a),
{
    text_lt_total(a.1, b.1);
    text_lt_irreflexive(a.1);
    if text_lt(a.1, b.1) && text_lt(b.1, a.1) {
        text_lt_transitive(a.1, b.1, a.1);
    }
}

/// Asking a host marks it as waited for and as being connected to, and sends one request that
/// carries the present generation and limit.
pub proof fn asking_sends_one_request(v: PickerView, target: Seq<char>, other: Seq<char>)
    requires
        v.reconnect.dom().contains(target),
    ensures
        ({
            let after = v.asking(target);
            &&& after.pending_hosts.contains(target)
            &&& after.reconnect[target].phase is Connecting
            &&& after.reconnect[target].next_attempt_at is None
            &&& after.reconnect[target].consecutive_failures
                == v.reconnect[target].consecutive_failures
            &&& after.effects.len() == v.effects.len() + 1
            &&& after.effects.drop_last() == v.effects
            &&& after.effects.last() matches EffectView::Discover { generation, target: asked, limit, .. }
                && generation == v.refresh_generation && asked == target && limit == v.limit
            &&& other != target ==> after.reconnect[other] == v.reconnect[other] && (
            after.pending_hosts.contains(other) <==> v.pending_hosts.contains(other))
        }),
{
    assert(v.asking(target).effects.drop_last() =~= v.effects);
}

/// The processes of a host are looked at where it has no error, is not being asked, has a
/// current session that runs, and was not looked at for two seconds, or five for another host.
pub proof fn hosts_are_looked_at_in_turn(v: PickerView, target: Seq<char>, now: u64)
    requires
        target != v.local_hostname,
    ensures
        v.is_polled(target, now) <==> {
            let host = seen_as(target, v.local_hostname);
            let pause: int = if target == "local"@ {
                2_000
            } else {
                5_000
            };
            &&& !v.activity_pending.contains(target)
            &&& !v.pending_hosts.contains(target)
            &&& !v.host_errors.dom().contains(target)
            &&& v.last_activity_poll.dom().contains(target) ==> v.last_activity_poll[target] + pause
                <= now
            &&& runs_on(v.active, host, v.fresh_ids) || runs_on(v.settled, host, v.fresh_ids)
        },
{
}

/// Each host whose turn it is is looked at once: it is waited for, the time is noted, and a
/// request with the present generation is sent. Nothing changes for another.
pub proof fn a_look_is_asked_for_where_it_is_due(v: PickerView, now: u64, target: Seq<char>)
    ensures
        ({
            let after = v.with_activity_polled(now);
            let due = v.discovery_targets.contains(target) && v.is_polled(target, now);
            let request = EffectView::ObserveLive { generation: v.refresh_generation, target };
            &&& due ==> after.activity_pending.contains(target)
                && after.last_activity_poll.dom().contains(target)
                && after.last_activity_poll[target] == now && after.effects.contains(request)
            &&& !due ==> (after.activity_pending.contains(target) <==> v.activity_pending.contains(
                target,
            )) && (after.last_activity_poll.dom().contains(target)
                <==> v.last_activity_poll.dom().contains(target)) && (
            after.last_activity_poll.dom().contains(target) ==> after.last_activity_poll[target]
                == v.last_activity_poll[target]) && (after.effects.contains(request)
                ==> v.effects.contains(request))
            &&& after.pending_hosts == v.pending_hosts
            &&& after.reconnect == v.reconnect
        }),
{
    let keep = |target: Seq<char>| v.is_polled(target, now);
    let due = v.discovery_targets.filter(keep);
    lemma_polling_all(v, due, now, target);
    if due.contains(target) {
        let k = choose|k: int| 0 <= k < due.len() && due[k] == target;
        v.discovery_targets.lemma_filter_pred(keep, k);
        v.discovery_targets.lemma_filter_contains_rev(keep, target);
    }
    if v.discovery_targets.contains(target) && v.is_polled(target, now) {
        let k = choose|k: int|
            0 <= k < v.discovery_targets.len() && v.discovery_targets[k] == target;
        v.discovery_targets.lemma_filter_contains(keep, k);
    }
}

proof fn lemma_polling_all(v: PickerView, targets: Seq<Seq<char>>, now: u64, target: Seq<char>)
    ensures
        ({
            let after = v.polling_all(targets, now);
            let request = EffectView::ObserveLive { generation: v.refresh_generation, target };
            &&& after.refresh_generation == v.refresh_generation
            &&& after.pending_hosts == v.pending_hosts
            &&& after.reconnect == v.reconnect
            &&& targets.contains(target) ==> after.activity_pending.contains(target)
                && after.last_activity_poll.dom().contains(target)
                && after.last_activity_poll[target] == now && after.effects.contains(request)
            &&& !targets.contains(target) ==> (after.activity_pending.contains(target)
                <==> v.activity_pending.contains(target)) && (
            after.last_activity_poll.dom().contains(target) <==> v.last_activity_poll.dom().contains(
                target,
            )) && (after.last_activity_poll.dom().contains(target)
                ==> after.last_activity_poll[target] == v.last_activity_poll[target]) && (
            after.effects.contains(request) ==> v.effects.contains(request))
        }),
    decreases targets.len(),
{
    if targets.len() > 0 {
        let front = targets.drop_last();
        let last = targets.last();
        let request = EffectView::ObserveLive { generation: v.refresh_generation, target };
        lemma_polling_all(v, front, now, target);
        let before = v.polling_all(front, now);
        let after = v.polling_all(targets, now);
        assert(after.effects == before.effects.push(
            EffectView::ObserveLive { generation: v.refresh_generation, target: last },
        ));
        assert(targets[targets.len() - 1] == last);
        if front.contains(target) {
            let k = choose|k: int| 0 <= k < front.len() && front[k] == target;
            assert(targets[k] == target);
        }
        if targets.contains(target) && target != last {
            let k = choose|k: int| 0 <= k < targets.len() && targets[k] == target;
            assert(front[k] == target);
        }
        if target == last {
            assert(after.effects[before.effects.len() as int] == request);
        }
        if before.effects.contains(request) {
            let k = choose|k: int| 0 <= k < before.effects.len() && before.effects[k] == request;
            assert(after.effects[k] == request);
        }
        if after.effects.contains(request) && target != last {
            let k = choose|k: int| 0 <= k < after.effects.len() && after.effects[k] == request;
            assert(k < before.effects.len());
            assert(before.effects[k] == request);
        }
    }
}

/// Each turn takes away an old notice, asks the hosts that are due, four at a time, and looks at
/// those whose turn it is.
pub proof fn a_turn_does_what_is_due(v: PickerView, now: u64, target: Seq<char>)
    requires
        v.pending_hosts.finite(),
        v.pending_hosts.len() <= 4,
    ensures
        ({
            let after = v.after_turn(now);
            let asked = v.with_notice_expired(now).with_due_hosts_asked(now);
            &&& after.pending_hosts.len() <= 4
            &&& v.pending_hosts.contains(target) ==> after.pending_hosts.contains(target)
            &&& asked.discovery_targets.contains(target) && asked.is_polled(target, now)
                ==> after.activity_pending.contains(target)
        }),
{
    let quiet = v.with_notice_expired(now);
    crate::picker::refresh::few_hosts_are_asked_at_a_time(quiet, now);
    let asked = quiet.with_due_hosts_asked(now);
    a_look_is_asked_for_where_it_is_due(asked, now, target);
    let due = quiet.due_targets(now);
    let chosen = if due.len() < quiet.capacity() {
        due
    } else {
        due.take(quiet.capacity() as int)
    };
    lemma_asking_waits(quiet, chosen, target);
}

proof fn lemma_asking_waits(v: PickerView, targets: Seq<Seq<char>>, target: Seq<char>)
    ensures
        v.pending_hosts.contains(target) ==> v.asking_all(targets).pending_hosts.contains(target),
    decreases targets.len(),
{
    if targets.len() > 0 {
        lemma_asking_waits(v, targets.drop_last(), target);
    }
}

/// A current session of the host runs.
pub open spec fn runs_on(sessions: Seq<Session>, host: Seq<char>, fresh: Set<Seq<char>>) -> bool {
    exists|i: int|
        0 <= i < sessions.len() && (#[trigger] sessions[i]).host@ == host && fresh.contains(
            sessions[i].id@,
        ) && !(sessions[i].runtime is Resumable)
}

/// What a host is told to be known of its sessions is what is listed of them: when each was
/// last used and changed, and whether a message of it is known.
pub proof fn a_host_is_told_what_is_known(
    sessions: Seq<Session>,
    host: Seq<char>,
    native: Seq<char>,
)
    ensures
        ({
            let known = details_on(sessions, host);
            &&& known.dom().contains(native) <==> exists|i: int|
                0 <= i < sessions.len() && (#[trigger] sessions[i]).host@ == host
                    && sessions[i].native_session_id@ == native
            &&& known.dom().contains(native) ==> exists|i: int|
                0 <= i < sessions.len() && (#[trigger] sessions[i]).host@ == host
                    && sessions[i].native_session_id@ == native && known[native].last_interaction
                    == sessions[i].last_interaction_unix_seconds && known[native].updated
                    == sessions[i].updated_unix_seconds && (known[native].has_message
                    <==> sessions[i].last_message@.len() > 0)
        }),
    decreases sessions.len(),
{
    if sessions.len() > 0 {
        let front = sessions.drop_last();
        a_host_is_told_what_is_known(front, host, native);
        let last = sessions[sessions.len() - 1];
        assert(last == sessions.last());
        if exists|i: int|
            0 <= i < sessions.len() && (#[trigger] sessions[i]).host@ == host
                && sessions[i].native_session_id@ == native {
            let i = choose|i: int|
                0 <= i < sessions.len() && (#[trigger] sessions[i]).host@ == host
                    && sessions[i].native_session_id@ == native;
            if i < front.len() {
                assert(front[i] == sessions[i]);
            }
        }
        if details_on(front, host).dom().contains(native) {
            let i = choose|i: int|
                0 <= i < front.len() && (#[trigger] front[i]).host@ == host
                    && front[i].native_session_id@ == native && details_on(
                    front,
                    host,
                )[native].last_interaction == front[i].last_interaction_unix_seconds && details_on(
                    front,
                    host,
                )[native].updated == front[i].updated_unix_seconds && (details_on(
                    front,
                    host,
                )[native].has_message <==> front[i].last_message@.len() > 0);
            assert(sessions[i] == front[i]);
        }
    }
}

// ---- the user's marks ----

/// Marking a session as read marks every row of it and no other, takes it from the unread ones,
/// and says so where the user asked.
pub proof fn marking_as_read(
    v: PickerView,
    id: Seq<char>,
    show_status: bool,
    clock: Clock,
    i: int,
)
    ensures
        ({
            let after = v.acknowledged(id, show_status, clock);
            &&& after.store.len() == v.store.len()
            &&& 0 <= i < v.store.len() ==> (if v.store[i].session_id@ == id {
                !after.store[i].notification_unread && after.store[i].snapshot
                    == v.store[i].snapshot && after.store[i].archived == v.store[i].archived
            } else {
                after.store[i] == v.store[i]
            })
            &&& after.unread_ids == v.unread_ids.remove(id)
            &&& after.active == v.active && after.settled == v.settled
            &&& !show_status ==> after.notice == v.notice && after.preview == v.preview
            &&& show_status && v.preview is None ==> after.notice is Some && (after.notice->0).1
                == clock.monotonic_millis
            &&& show_status && v.preview is Some ==> after.notice == v.notice && after.preview
                is Some && after.preview->0.notice is Some
        }),
{
}

/// Archiving a session changes that session's rows and no other but for what settles by itself,
/// and says whether the session was put away or brought back.
pub proof fn archiving_moves_one_session(
    v: PickerView,
    id: Seq<char>,
    archived: bool,
    clock: Clock,
    i: int,
)
    requires
        0 <= i < v.store.len(),
    ensures
        ({
            let after = v.with_archived(id, archived, clock);
            let now = stored_seconds(clock.unix_seconds);
            &&& after.store.len() == v.store.len()
            &&& v.store[i].session_id@ == id ==> after.store[i].archived == archived
            &&& v.store[i].session_id@ == id && archived ==> !after.store[i].notification_unread
                && after.store[i].archived_at == Some(now) && after.store[i].archive_reason == Some(
                crate::store::ArchiveReason::Manual,
            )
            &&& v.store[i].session_id@ != id && v.store[i].archived ==> after.store[i] == v.store[i]
            &&& v.store[i].session_id@ != id && !v.store[i].archived && after.store[i].archived
                ==> after.store[i].archive_reason == Some(crate::store::ArchiveReason::Stale)
            &&& after.store[i].snapshot == v.store[i].snapshot
            &&& after.notice is Some && (after.notice->0).1 == clock.monotonic_millis
            &&& (after.notice->0).0 == (if archived {
                "Settled "@
            } else {
                "Restored "@
            }) + v.title_of(id) + "."@
        }),
{
}

/// A message names a session by its title where it is listed, and else by its identifier.
pub proof fn messages_name_the_title(v: PickerView, id: Seq<char>)
    ensures
        !names(v.active, id) && !names(v.settled, id) ==> v.title_of(id) == id,
        names(v.active, id) ==> exists|i: int|
            0 <= i < v.active.len() && (#[trigger] v.active[i]).id@ == id && v.title_of(id)
                == v.active[i].title@,
        !names(v.active, id) && names(v.settled, id) ==> exists|i: int|
            0 <= i < v.settled.len() && (#[trigger] v.settled[i]).id@ == id && v.title_of(id)
                == v.settled[i].title@,
{
    lemma_first(v.active, id);
    lemma_first(v.settled, id);
}

// ---- the preview ----

/// A captured pane is shown from its end, where it holds more than blanks; where it does not,
/// what is known is shown; and where it could not be captured, the reason is shown with it. A
/// capture for another preview is dropped.
pub proof fn a_capture_fills_its_preview(
    v: PickerView,
    request_id: u64,
    session_id: String,
    result: Result<String, String>,
    hash: u64,
    clock: Clock,
)
    requires
        v.preview is Some,
    ensures
        ({
            let after = v.applied(
                RefreshEvent::Preview { request_id, session_id, result },
                hash,
                clock,
            );
            let asked = v.preview->0;
            let fits = asked.request_id == request_id && asked.session_id == session_id@;
            &&& !fits ==> after == v
            &&& fits ==> after.preview is Some && after.preview->0.scroll_from_bottom == 0
                && after.preview->0.title == asked.title && after.preview->0.session_id
                == asked.session_id
            &&& fits ==> (result matches Ok(body) ==> {
                &&& trimmed(body@).len() > 0 ==> after.preview->0.content == (ContentView::Ready {
                    source: "live tmux pane"@,
                    body: body@,
                })
                &&& trimmed(body@).len() == 0 ==> (after.preview->0.content matches
                    ContentView::Ready { source, .. } && source == "cached response"@)
            })
            &&& fits ==> (result matches Err(error) ==> (after.preview->0.content matches
                ContentView::Failed { error: shown, .. } && shown == error@))
        }),
{
}

// ---- notices ----

/// A notice is shown for eight seconds, and then taken away; nothing else is changed by it.
pub proof fn notices_are_shown_for_a_while(v: PickerView, now: u64)
    ensures
        ({
            let after = v.with_notice_expired(now);
            &&& after == PickerView { notice: after.notice, ..v }
            &&& v.notice is None ==> after.notice is None
            &&& v.notice matches Some((text, at)) ==> (if at + 8_000 <= now {
                after.notice is None
            } else {
                after.notice == v.notice
            })
        }),
{
}

/// A new refresh is of a new generation, waits for no answer of the last one, and forgets every
/// failure: each host is due at once.
pub proof fn a_refresh_starts_afresh(v: PickerView, now: u64, target: Seq<char>)
    requires
        v.refresh_generation < u64::MAX,
    ensures
        ({
            let after = v.with_refresh_started(now);
            &&& after.refresh_generation == v.refresh_generation + 1
            &&& after.enriching_hosts == Set::<Seq<char>>::empty()
            &&& after.activity_pending == Set::<Seq<char>>::empty()
            &&& v.reconnect.dom().contains(target) ==> after.reconnect.dom().contains(target) && (
            after.reconnect[target].consecutive_failures == 0) && (after.pending_hosts.contains(
                target,
            ) ==> after.reconnect[target].phase is Connecting) && (!after.pending_hosts.contains(
                target,
            ) ==> after.reconnect[target].next_attempt_at == Some(now))
        }),
{
    let fresh = PickerView {
        refresh_generation: v.refresh_generation.wrapping_add(1),
        enriching_hosts: Set::empty(),
        activity_pending: Set::empty(),
        pending_hosts: Set::empty(),
        last_activity_poll: Map::empty(),
        reconnect: v.reconnect.map_values(
            |state: HostReconnectState| crate::reconnect::requested(now),
        ),
        status: Some("Refreshing configured hosts…"@),
        ..v
    };
    let due = fresh.due_targets(now);
    let chosen = if due.len() < fresh.capacity() {
        due
    } else {
        due.take(fresh.capacity() as int)
    };
    lemma_asking_all(fresh, chosen, target, now);
}

proof fn lemma_asking_all(v: PickerView, targets: Seq<Seq<char>>, target: Seq<char>, now: u64)
    requires
        v.pending_hosts == Set::<Seq<char>>::empty(),
        v.reconnect.dom().contains(target) ==> v.reconnect[target].next_attempt_at == Some(now)
            && v.reconnect[target].consecutive_failures == 0,
    ensures
        ({
            let after = v.asking_all(targets);
            &&& after.refresh_generation == v.refresh_generation
            &&& after.enriching_hosts == v.enriching_hosts
            &&& after.activity_pending == v.activity_pending
            &&& after.reconnect.dom().contains(target) <==> v.reconnect.dom().contains(target)
            &&& v.reconnect.dom().contains(target) ==> (
            after.reconnect[target].consecutive_failures == 0) && (after.pending_hosts.contains(
                target,
            ) ==> after.reconnect[target].phase is Connecting) && (!after.pending_hosts.contains(
                target,
            ) ==> after.reconnect[target].next_attempt_at == Some(now))
        }),
    decreases targets.len(),
{
    if targets.len() > 0 {
        lemma_asking_all(v, targets.drop_last(), target, now);
    }
}

/// A watch is done with its first look once every host of it has answered or failed, and no
/// answer is waited for.
pub proof fn the_first_look_ends_with_the_last_answer(v: PickerView, target: Seq<char>)
    ensures
        v.is_reconciled() ==> !v.initial_targets_remaining.contains(target)
            && !v.pending_hosts.contains(target) && !v.enriching_hosts.contains(target)
            && !v.activity_pending.contains(target),
        v.initial_targets_remaining.is_empty() && v.pending_hosts.is_empty()
            && v.enriching_hosts.is_empty() && v.activity_pending.is_empty() ==> v.is_reconciled(),
{
}

} // verus!
