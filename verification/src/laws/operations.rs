//! What the operations that change a value leave behind.

use vstd::prelude::*;

use crate::agents::sort_and_limit_sessions;
use crate::codex::{correlate_session, enrich_session, ReadTurn};
use crate::domain::{binding_view, Activity, LiveObservation, Session};
use crate::keyed::StringMap;
use crate::laws::attention::{
    acknowledging_only_marks_read, only_idle_sessions_settle, recording_attention_tells_of_it,
    the_cutoff_lies_before_the_present, transitions_are_told_and_marked,
};
use crate::laws::dashboard::{sessions_stand_in_their_order, stands_before};
use crate::laws::details::{
    details_change_only_activity_and_message, the_last_turn_decides_the_activity,
};
use crate::laws::keys::{
    holds, is_letter, letters_ask_for_what_the_help_says, letters_open_what_the_help_says,
    stands_on, stands_on_no_session, the_archive_key_moves_the_session,
};
use crate::laws::refreshing::{
    a_failure_is_noted, a_look_updates_a_session, a_refresh_starts_afresh,
    an_answer_makes_a_host_reachable, lemma_look, marking_as_read, notices_are_shown_for_a_while,
    only_the_user_mends, seen_as,
};
use crate::laws::turns::{
    only_unknown_sessions_are_refused, the_picker_ends_for_a_session_or_the_user,
};
use crate::picker::input::Key;
use crate::picker::refresh::live_session;
use crate::picker::turns::Outcome;
use crate::picker::{
    Action, ActionView, Clock, DashboardSelection, EffectView, PickerApp, RefreshEvent,
};
use crate::recency::limit_sessions;
use crate::reconnect::{
    base_delay, jitter_is_within_a_fifth, within_clock, FailureClass, HostReconnectState,
};
use crate::store::{
    row_ids, ArchiveReason, SessionTransition, SessionTransitionKind, Store, StoreError,
};
use crate::text::trimmed;

verus! {

// ---- sessions ----

/// Reading the turns of a thread that neither works nor waits sets its activity by the last
/// turn, and leaves everything else of it but its last message.
pub proof fn reading_a_thread_tells_its_activity(session: &mut Session, turns: &Vec<ReadTurn>)
    requires
        call_ensures(enrich_session, (session, turns), ()),
    ensures
        ({
            let before = old(session).activity;
            let after = final(session).activity;
            let busy = before is Working || before is WaitingApproval || before is WaitingInput;
            let word = turns@.last().status@;
            let known = word == "inProgress"@ || word == "failed"@ || word == "completed"@ || word
                == "interrupted"@;
            &&& turns@.len() == 0 || busy ==> after == before
            &&& turns@.len() > 0 && !busy && word == "failed"@ ==> after is Failed
            &&& turns@.len() > 0 && !busy && word == "inProgress"@ ==> after is Working
            &&& turns@.len() > 0 && !busy && (word == "completed"@ || word == "interrupted"@)
                ==> after is Completed
            &&& turns@.len() > 0 && !busy && !known ==> after == before
        }),
        final(session).id@ == old(session).id@,
        final(session).host@ == old(session).host@,
        final(session).title@ == old(session).title@,
        final(session).cwd@ == old(session).cwd@,
        final(session).native_session_id@ == old(session).native_session_id@,
        final(session).runtime == old(session).runtime,
        final(session).last_interaction_unix_seconds == old(session).last_interaction_unix_seconds,
{
    the_last_turn_decides_the_activity(old(session).view(), turns@);
    details_change_only_activity_and_message(old(session).view(), turns@);
}

/// A thread is listed on its host under its identifier, with the owner that was seen; only one
/// in a terminal has a pane; and one that was not seen stays as it was.
pub proof fn a_thread_is_found_as_it_was_seen(
    session: &mut Session,
    host: &str,
    live: &StringMap<LiveObservation>,
)
    requires
        call_ensures(correlate_session, (session, host, live), ()),
    ensures
        ({
            let native = old(session).native_session_id@;
            let seen = live@.dom().contains(native);
            let saw = live@[native];
            let after = *final(session);
            let waits = old(session).activity is WaitingApproval || old(session).activity
                is WaitingInput;
            &&& after.host@ == host@ && after.agent is Codex
            &&& after.native_session_id@ == native && after.title@ == old(session).title@
            &&& !seen ==> after.runtime == old(session).runtime && after.activity
                == old(session).activity
            &&& seen ==> after.runtime == saw.runtime
            &&& seen && !(saw.runtime is TmuxFrontend) ==> after.tmux is None
            &&& seen && saw.runtime is TmuxFrontend && saw.tmux is Some ==> after.tmux is Some
                && after.tmux->0.session@ == saw.tmux->0.session@ && after.tmux->0.pane@
                == saw.tmux->0.pane@
            &&& seen && saw.activity is Completed ==> after.activity is Completed
            &&& seen && saw.activity is Working && !waits ==> after.activity is Working
            &&& seen && saw.activity is Working && waits ==> after.activity
                == old(session).activity
        }),
{
    let native = old(session).native_session_id@;
    let views = crate::domain::observation_views(live@);
    assert(views.dom().contains(native) <==> live@.dom().contains(native));
    if live@.dom().contains(native) {
        assert(views[native] == live@[native].view());
        assert(final(session).view().tmux == binding_view(final(session).tmux));
    }
}

/// A limit keeps the first sessions, as many as it says.
pub proof fn limiting_keeps_the_first(sessions: &mut Vec<Session>, limit: Option<usize>, i: int)
    requires
        call_ensures(limit_sessions, (sessions, limit), ()),
    ensures
        limit is None ==> final(sessions)@ == old(sessions)@,
        limit is Some && old(sessions)@.len() <= limit->0 ==> final(sessions)@ == old(sessions)@,
        limit is Some && old(sessions)@.len() > limit->0 ==> final(sessions)@.len() == limit->0,
        0 <= i < final(sessions)@.len() ==> final(sessions)@[i] == old(sessions)@[i],
{
}

/// What stays of the sorted sessions is what was used last.
pub proof fn sorting_keeps_what_was_used_last(
    sessions: &mut Vec<Session>,
    limit: Option<usize>,
    i: int,
    j: int,
)
    requires
        call_ensures(sort_and_limit_sessions, (sessions, limit), ()),
        0 <= i < j < final(sessions)@.len(),
    ensures
        final(sessions)@[i].last_interaction_unix_seconds
            >= final(sessions)@[j].last_interaction_unix_seconds,
        limit is Some ==> final(sessions)@.len() <= limit->0,
        limit is None ==> final(sessions)@.len() == old(sessions)@.len(),
{
    let all = old(sessions)@;
    let wrapped = all.map_values(|session: Session| crate::recency::NewestFirst { session });
    let out = crate::order::ranked(wrapped);
    crate::order::ranked_is_in_order(wrapped);
    crate::order::ranked_is_permutation(wrapped);
    assert(crate::order::Ranked::at_most(out[i], out[j]));
    let sorted = crate::recency::newest_first(all);
    assert(sorted[i] == out[i].session && sorted[j] == out[j].session);
}

// ---- the store ----

/// Recording a session that newly fails or waits, over a row that the user did not put away,
/// gives one transition of the matching kind and leaves the row unread.
pub proof fn recording_asks_for_attention(
    store: &mut Store,
    sessions: &Vec<Session>,
    now: i64,
    r: Vec<SessionTransition>,
    i: int,
    kind: SessionTransitionKind,
)
    requires
        call_ensures(Store::record, (store, sessions, now), r),
        sessions@.len() == 1,
        row_ids(old(store)@).no_duplicates(),
        0 <= i < old(store)@.len(),
        old(store)@[i].session_id@ == sessions@[0].id@,
        trimmed(sessions@[0].title@).len() > 0,
        !old(store)@[i].archived,
        old(store)@[i].snapshot.activity != sessions@[0].activity,
        match sessions@[0].activity {
            Activity::Failed => kind is Failed,
            Activity::WaitingApproval => kind is Approval,
            Activity::WaitingInput => kind is Input,
            _ => false,
        },
        now >= 0,
    ensures
        r@.len() == 1,
        r@[0].kind == kind,
        r@[0].session_id@ == sessions@[0].id@,
        final(store)@[i].notification_unread,
        final(store)@[i].notification_kind == Some(kind),
{
    assert(sessions@ =~= seq![sessions@[0]]);
    recording_attention_tells_of_it(old(store)@, sessions@[0], now, i, kind);
}

/// Archiving a session that is known puts it away or brings it back, and leaves the others;
/// one that is not known is refused.
pub proof fn archiving_a_session_moves_it(
    store: &mut Store,
    id: &str,
    archived: bool,
    now: i64,
    r: Result<(), StoreError>,
    i: int,
)
    requires
        call_ensures(Store::set_archived, (store, id, archived, now), r),
        0 <= i < old(store)@.len(),
    ensures
        final(store)@.len() == old(store)@.len(),
        old(store)@[i].session_id@ == id@ ==> r is Ok && final(store)@[i].archived == archived
            && final(store)@[i].snapshot == old(store)@[i].snapshot,
        old(store)@[i].session_id@ == id@ && archived ==> final(store)@[i].archive_reason == Some(
            ArchiveReason::Manual,
        ) && final(store)@[i].archived_at == Some(now) && !final(store)@[i].notification_unread,
        old(store)@[i].session_id@ == id@ && !archived ==> final(store)@[i].archive_reason is None,
        old(store)@[i].session_id@ != id@ ==> final(store)@[i] == old(store)@[i],
{
    assert(row_ids(old(store)@)[i] == old(store)@[i].session_id@);
}

/// An acknowledgement marks a session as read, leaves the others, and says whether it was
/// unread.
pub proof fn acknowledging_marks_as_read(store: &mut Store, id: &str, r: bool, i: int)
    requires
        call_ensures(Store::acknowledge, (store, id), r),
        0 <= i < old(store)@.len(),
    ensures
        final(store)@.len() == old(store)@.len(),
        old(store)@[i].session_id@ == id@ ==> !final(store)@[i].notification_unread,
        old(store)@[i].session_id@ == id@ && old(store)@[i].notification_unread ==> r,
        old(store)@[i].session_id@ != id@ ==> final(store)@[i] == old(store)@[i],
        final(store)@[i].snapshot == old(store)@[i].snapshot,
{
    acknowledging_only_marks_read(old(store)@, id@, i);
    crate::laws::attention::unread_sessions_have_attention(old(store)@, id@);
}

/// Settling puts away the sessions that are active and read, have completed or are unknown,
/// were last used long enough ago and are not pinned, and no others.
pub proof fn settling_puts_away_what_is_idle(
    store: &mut Store,
    now: i64,
    after: u64,
    r: usize,
    i: int,
)
    requires
        call_ensures(Store::auto_settle_stale_at, (store, now, after), r),
        0 <= i < old(store)@.len(),
        0 <= now,
        after <= i64::MAX,
    ensures
        ({
            let row = old(store)@[i];
            let idle = !row.archived && !row.notification_unread && row.last_interaction <= now
                - after && row.active_override_interaction != Some(row.last_interaction) && (
            row.snapshot.activity is Completed || row.snapshot.activity is Unknown);
            &&& final(store)@.len() == old(store)@.len()
            &&& idle ==> final(store)@[i].archived && final(store)@[i].archive_reason == Some(
                ArchiveReason::Stale,
            ) && final(store)@[i].archived_at == Some(now)
            &&& !idle ==> final(store)@[i] == row
        }),
{
    let cutoff = crate::store::stale_cutoff(now, after);
    only_idle_sessions_settle(old(store)@, cutoff, now, i);
    the_cutoff_lies_before_the_present(now, after);
}

// ---- connections ----

/// An attempt is under way until it ends, and is not repeated meanwhile.
pub proof fn an_attempt_is_under_way(state: &mut HostReconnectState)
    requires
        call_ensures(HostReconnectState::begin_attempt, (state,), ()),
    ensures
        final(state).phase is Connecting,
        final(state).next_attempt_at is None,
        final(state).consecutive_failures == old(state).consecutive_failures,
{
}

/// A host that the user asks for is due at once, whatever failed before.
pub proof fn the_user_asks_at_once(state: &mut HostReconnectState, now: u64)
    requires
        call_ensures(HostReconnectState::request_now, (state, now), ()),
    ensures
        final(state).next_attempt_at == Some(now),
        final(state).consecutive_failures == 0,
{
}

/// A host that was reached is online with no failure, is asked again after one minute where it
/// matters and after three where it does not, and is said to have come back where it had failed.
pub proof fn a_reached_host_is_online(
    state: &mut HostReconnectState,
    now: u64,
    important: bool,
    r: bool,
)
    requires
        call_ensures(HostReconnectState::succeeded, (state, now, important), r),
        within_clock(now),
    ensures
        final(state).phase is Online,
        final(state).consecutive_failures == 0,
        important ==> final(state).next_attempt_at == Some((now + 60_000) as u64),
        !important ==> final(state).next_attempt_at == Some((now + 180_000) as u64),
        r <==> old(state).consecutive_failures > 0,
{
}

/// A host that failed counts one failure more. What only the user can mend waits for the user;
/// anything else is tried again, within a fifth of the delay for that many failures.
pub proof fn a_failed_host_waits(
    state: &mut HostReconnectState,
    now: u64,
    important: bool,
    class: FailureClass,
    hash: u64,
)
    requires
        call_ensures(HostReconnectState::failed_with_hash, (state, now, important, class, hash), ()),
        within_clock(now),
        old(state).consecutive_failures < usize::MAX,
    ensures
        final(state).consecutive_failures == old(state).consecutive_failures + 1,
        class is Blocked ==> final(state).phase is Blocked && final(state).next_attempt_at is None,
        class is Transient ==> final(state).phase is Backoff && ({
            let failures = final(state).consecutive_failures;
            let delay: int = if important {
                if failures == 1 {
                    2_000
                } else if failures == 2 {
                    5_000
                } else if failures == 3 {
                    10_000
                } else if failures == 4 {
                    20_000
                } else {
                    30_000
                }
            } else {
                if failures == 1 {
                    5_000
                } else if failures == 2 {
                    15_000
                } else if failures == 3 {
                    30_000
                } else if failures == 4 {
                    60_000
                } else {
                    120_000
                }
            };
            final(state).next_attempt_at matches Some(at) && now + delay * 4 / 5 <= at <= now + delay
                + delay / 5
        }),
{
    let failures = (old(state).consecutive_failures + 1) as usize;
    jitter_is_within_a_fifth(base_delay(failures, important), hash);
}

// ---- the picker ----

/// Earlier sessions stand before later ones once the rows were built anew, by the lists that
/// the picker had; and the lists stay.
pub proof fn building_rows_sorts_the_sessions(
    app: &mut PickerApp,
    query: &str,
    selection: Option<DashboardSelection>,
    now: u64,
    archive: bool,
    i: int,
    j: int,
)
    requires
        call_ensures(PickerApp::rebuild_rows_for, (app, query, selection, now), ()),
        0 <= i < j < old(app)@.sorted(query@, now, archive).len(),
    ensures
        final(app)@.rows == old(app)@.dashboard(query@, now),
        final(app)@.active == old(app)@.active,
        final(app)@.settled == old(app)@.settled,
        stands_before(
            final(app)@,
            final(app)@.session_of(old(app)@.sorted(query@, now, archive)[i].session_ref),
            final(app)@.session_of(old(app)@.sorted(query@, now, archive)[j].session_ref),
        ),
{
    sessions_stand_in_their_order(old(app)@, query@, now, archive, i, j);
}

/// A key that is pressed among the rows ends the picker, refreshes, marks as read and opens as
/// the help says.
pub proof fn a_key_among_the_rows(app: &mut PickerApp, key: Key, clock: Clock, r: Action)
    requires
        call_ensures(PickerApp::handle_key, (app, key, clock), r),
        old(app)@.wf(),
        old(app)@.input_mode is Browse,
    ensures
        r is Quit <==> key.code is Esc || is_letter(key, 'q') || (is_letter(key, 'c')
            && key.control),
        r is Refresh <==> is_letter(key, 'r'),
        r is Acknowledge <==> is_letter(key, 'x') && !stands_on_no_session(old(app)@),
        r is Attach ==> key.code is Enter,
        r matches Action::Acknowledge(id) ==> exists|session: Session|
            stands_on(old(app)@, session) && session.id@ == id@,
        final(app)@.input_mode is Search <==> is_letter(key, '/'),
        final(app)@.input_mode is Hosts <==> is_letter(key, 'h'),
        final(app)@.input_mode is Help <==> is_letter(key, '?'),
        final(app)@.store == old(app)@.store,
{
    letters_ask_for_what_the_help_says(old(app)@, key, clock.unix_seconds);
    letters_open_what_the_help_says(old(app)@, key, clock.unix_seconds);
    crate::picker::input::keys_change_nothing_that_is_kept(old(app)@, key, clock.unix_seconds);
}

/// The key for the archive asks to move the session under the cursor.
pub proof fn the_archive_key_among_the_rows(
    app: &mut PickerApp,
    key: Key,
    clock: Clock,
    r: Action,
    session: Session,
)
    requires
        call_ensures(PickerApp::handle_key, (app, key, clock), r),
        old(app)@.input_mode is Browse,
        is_letter(key, 'a'),
        stands_on(old(app)@, session),
    ensures
        r@ == (ActionView::SetArchived {
            session_id: session.id@,
            archived: holds(old(app)@.active, session.id@),
            attach: false,
        }),
{
    the_archive_key_moves_the_session(old(app)@, key, clock.unix_seconds, session);
}

/// An answer of a host that is waited for makes it reachable, and takes its error away.
pub proof fn an_answer_is_taken(
    app: &mut PickerApp,
    target: String,
    sessions: Vec<Session>,
    clock: Clock,
)
    requires
        call_ensures(
            PickerApp::apply_refresh_event,
            (
                app,
                RefreshEvent::Basic { generation: old(app)@.refresh_generation, target, sessions },
                clock,
            ),
            (),
        ),
        within_clock(clock.monotonic_millis),
    ensures
        final(app)@.reachable_hosts.contains(target@),
        !final(app)@.pending_hosts.contains(target@),
        !final(app)@.host_errors.dom().contains(target@),
        final(app)@.enriching_hosts.contains(target@),
        old(app)@.reconnect.dom().contains(target@) ==> final(app)@.reconnect[target@].phase
            is Online && final(app)@.reconnect[target@].consecutive_failures == 0,
{
    let event = RefreshEvent::Basic { generation: old(app)@.refresh_generation, target, sessions };
    an_answer_makes_a_host_reachable(
        old(app)@,
        target,
        sessions,
        old(app)@.hash_of(event),
        clock,
        target@,
    );
}

/// A failure of a host that is waited for is kept with its message, and blocks the host where
/// only the user can mend it.
pub proof fn a_failure_is_taken(app: &mut PickerApp, target: String, error: String, clock: Clock)
    requires
        call_ensures(
            PickerApp::apply_refresh_event,
            (
                app,
                RefreshEvent::Failed { generation: old(app)@.refresh_generation, target, error },
                clock,
            ),
            (),
        ),
        within_clock(clock.monotonic_millis),
    ensures
        !final(app)@.reachable_hosts.contains(target@),
        !final(app)@.pending_hosts.contains(target@),
        final(app)@.host_errors.dom().contains(target@) && final(app)@.host_errors[target@]
            == error,
        old(app)@.reconnect.dom().contains(target@) ==> (final(app)@.reconnect[target@].phase
            is Blocked <==> only_the_user_mends(error@)),
{
    let event = RefreshEvent::Failed { generation: old(app)@.refresh_generation, target, error };
    a_failure_is_noted(old(app)@, target, error, old(app)@.hash_of(event), clock, target@);
}

/// An acknowledged session is no longer unread.
pub proof fn a_session_is_marked_as_read(
    app: &mut PickerApp,
    id: &str,
    show_status: bool,
    clock: Clock,
)
    requires
        call_ensures(PickerApp::acknowledge_session, (app, id, show_status, clock), ()),
    ensures
        !final(app)@.unread_ids.contains(id@),
        final(app)@.active == old(app)@.active,
        forall|other: Seq<char>|
            other != id@ ==> (#[trigger] final(app)@.unread_ids.contains(other)
                <==> old(app)@.unread_ids.contains(other)),
{
    marking_as_read(old(app)@, id@, show_status, clock, 0);
}

/// A notice is taken away after eight seconds.
pub proof fn an_old_notice_is_taken_away(app: &mut PickerApp, clock: Clock)
    requires
        call_ensures(PickerApp::expire_notice, (app, clock), ()),
    ensures
        old(app)@.notice matches Some((text, at)) ==> (if at + 8_000 <= clock.monotonic_millis {
            final(app)@.notice is None
        } else {
            final(app)@.notice == old(app)@.notice
        }),
{
    notices_are_shown_for_a_while(old(app)@, clock.monotonic_millis);
}

/// A look at a host that succeeded updates each listed session in its place.
pub proof fn a_look_is_taken(
    app: &mut PickerApp,
    target: &str,
    observations: &StringMap<LiveObservation>,
    clock: Clock,
    i: int,
)
    requires
        call_ensures(PickerApp::apply_live_observations, (app, target, observations, clock), ()),
        0 <= i < old(app)@.active.len(),
    ensures
        ({
            let before = old(app)@.active[i];
            let after = final(app)@.active[i];
            let host = seen_as(target@, old(app)@.local_hostname);
            let concerns = before.host@ == host && old(app)@.fresh_ids.contains(before.id@);
            let seen = observations@.dom().contains(before.id@);
            let saw = observations@[before.id@];
            &&& final(app)@.active.len() == old(app)@.active.len()
            &&& !concerns ==> after == before
            &&& concerns && seen ==> after.runtime == saw.runtime && after.tmux == saw.tmux
            &&& concerns && seen && saw.activity is Completed ==> after.activity is Completed
            &&& concerns && !seen ==> after.runtime is Resumable
        }),
{
    let host = seen_as(target@, old(app)@.local_hostname);
    lemma_look(old(app)@, target@, observations@, clock);
    a_look_updates_a_session(old(app)@.active[i], host, old(app)@.fresh_ids, observations@);
    assert(final(app)@.active[i] == live_session(
        old(app)@.active[i],
        host,
        old(app)@.fresh_ids,
        observations@,
    ));
}

/// Every transition is told to the user, marks its session as unread, and is told to whoever
/// watches.
pub proof fn transitions_are_taken(
    app: &mut PickerApp,
    transitions: &Vec<SessionTransition>,
    clock: Clock,
    k: int,
)
    requires
        call_ensures(PickerApp::handle_transitions, (app, transitions, clock), ()),
        0 <= k < transitions@.len(),
    ensures
        final(app)@.unread_ids.contains(transitions@[k].session_id@),
        final(app)@.effects.contains(EffectView::NotifyTransition(transitions@[k])),
        old(app)@.watching ==> final(app)@.effects.contains(
            EffectView::EmitTransition(transitions@[k]),
        ),
{
    transitions_are_told_and_marked(old(app)@, transitions@, clock.monotonic_millis, k);
}

/// A chosen host is shown alone, and the picker is back at its rows.
pub proof fn a_host_is_chosen(app: &mut PickerApp, host: String, clock: Clock)
    requires
        call_ensures(PickerApp::set_host_filter, (app, host, clock), ()),
    ensures
        final(app)@.host_filter == host@,
        final(app)@.input_mode is Browse,
        final(app)@.query == old(app)@.query,
        final(app)@.active == old(app)@.active,
{
}

/// A preview is of the session under the cursor, and captures its pane only where it is known
/// to run in tmux.
pub proof fn a_preview_is_opened(app: &mut PickerApp, session: Session)
    requires
        call_ensures(PickerApp::start_preview, (app,), ()),
        stands_on(old(app)@, session),
    ensures
        final(app)@.input_mode is Preview,
        final(app)@.preview is Some && final(app)@.preview->0.session_id == session.id@,
        ({
            let live = old(app)@.fresh_ids.contains(session.id@) && session.runtime is TmuxFrontend
                && session.tmux is Some;
            &&& !live ==> final(app)@.effects == old(app)@.effects
            &&& live ==> final(app)@.effects.len() == old(app)@.effects.len() + 1
                && final(app)@.effects.last() is CapturePane
                && final(app)@.preview->0.content is Loading
        }),
{
}

/// A refresh that the user asks for is of a new generation, and makes every host due or asked.
pub proof fn a_refresh_is_started(app: &mut PickerApp, clock: Clock, target: Seq<char>)
    requires
        call_ensures(PickerApp::start_refresh, (app, clock), ()),
        old(app)@.refresh_generation < u64::MAX,
        old(app)@.reconnect.dom().contains(target),
    ensures
        final(app)@.refresh_generation == old(app)@.refresh_generation + 1,
        final(app)@.enriching_hosts.is_empty(),
        final(app)@.reconnect[target].consecutive_failures == 0,
        final(app)@.pending_hosts.contains(target) || final(app)@.reconnect[target].next_attempt_at
            == Some(clock.monotonic_millis),
{
    a_refresh_starts_afresh(old(app)@, clock.monotonic_millis, target);
}

/// What the user asks for is done: a session that the store does not know is refused, leaving
/// ends the picker, and a session to attach to ends it with that session.
pub proof fn an_action_is_performed(
    app: &mut PickerApp,
    action: Action,
    clock: Clock,
    r: Result<Outcome, StoreError>,
)
    requires
        call_ensures(PickerApp::perform, (app, action, clock), r),
    ensures
        action is Quit ==> (r matches Ok(outcome) && outcome is Quit),
        action matches Action::Attach(id) ==> (r matches Ok(Outcome::Open(opened)) && opened@ == id@),
        action is Nothing || action is Refresh || action is Acknowledge || action is SetHostFilter
            ==> (r matches Ok(outcome) && outcome is Continue),
        action matches Action::SetArchived { session_id, attach, .. } ==> (r matches Ok(outcome)
            ==> (if attach {
            outcome is Open && outcome->Open_0@ == session_id@
        } else {
            outcome is Continue
        })),
        r is Err ==> action is SetArchived && final(app)@ == old(app)@,
        action matches Action::Acknowledge(id) ==> !final(app)@.unread_ids.contains(id@),
        action matches Action::SetHostFilter(host) ==> final(app)@.host_filter == host@,
{
    only_unknown_sessions_are_refused(old(app)@, action@);
    the_picker_ends_for_a_session_or_the_user(action@);
}

} // verus!
