//! When a session asks for the user's attention, and how the user hears of it.

use vstd::prelude::*;

use crate::notify::{dispatch, session_transition, variable_views, Delivery, Notification};
use crate::picker::refresh::live_session;
use crate::picker::{EffectView, PickerView};
use crate::domain::{Activity, LiveObservation, Session};
use crate::order::{ranked, ranked_is_in_order};
use crate::store::{
    acknowledged_row, archived_row, attention_transition, backfilled_row, has_row, history_rows,
    is_history_entry, loaded, loaded_rows, recorded, recorded_transitions, refreshed_row, row_ids,
    settled, stale_cutoff, unread_ids, with_row, ArchiveReason, ByRecency, BySeen, HistoryEntry,
    SessionTransition, SessionTransitionKind, StoredSession,
};
use crate::text::trimmed;

verus! {

/// A session that newly fails, or newly waits for approval or input, always asks for
/// attention of that kind, whatever it did before. One that completes asks for it exactly where
/// it worked or waited before. Going to work, or becoming unknown, never does, and neither does
/// staying as it was.
pub proof fn a_change_of_activity_asks_for_attention(
    previous: &Session,
    current: &Session,
    r: Option<SessionTransitionKind>,
)
    requires
        call_ensures(attention_transition, (previous, current), r),
    ensures
        r == Some(SessionTransitionKind::Failed) <==> current.activity is Failed
            && previous.activity != current.activity,
        r == Some(SessionTransitionKind::Approval) <==> current.activity is WaitingApproval
            && previous.activity != current.activity,
        r == Some(SessionTransitionKind::Input) <==> current.activity is WaitingInput
            && previous.activity != current.activity,
        r == Some(SessionTransitionKind::Completed) <==> current.activity is Completed && (
        previous.activity is Working || previous.activity is WaitingApproval
            || previous.activity is WaitingInput),
{
}

proof fn lemma_recorded_at(
    rows: Seq<StoredSession>,
    session: Session,
    now: i64,
    i: int,
)
    requires
        row_ids(rows).no_duplicates(),
        0 <= i < rows.len(),
        rows[i].session_id@ == session.id@,
        trimmed(session.title@).len() > 0,
    ensures
        recorded(rows, seq![session], now).len() == rows.len(),
        recorded(rows, seq![session], now)[i] == refreshed_row(rows[i], session, now),
        recorded_transitions(rows, seq![session], now) == (
        match crate::store::recorded_transition(rows[i], session) {
            Some(kind) => seq![crate::store::transition_of(session, kind, now)],
            None => Seq::empty(),
        }),
{
    let one = seq![session];
    assert(one.drop_last() =~= Seq::<Session>::empty());
    assert(one.last() == session);
    let ids = row_ids(rows);
    assert(ids[i] == session.id@);
    assert(ids.contains(session.id@));
    let k = ids.index_of(session.id@);
    assert(ids[k] == ids[i]);
    assert(recorded(rows, one.drop_last(), now) == rows);
    assert(recorded_transitions(rows, one.drop_last(), now) =~= Seq::<SessionTransition>::empty());
    assert(recorded_transitions(rows, one, now) =~= (
    match crate::store::recorded_transition(rows[i], session) {
        Some(kind) => seq![crate::store::transition_of(session, kind, now)],
        None => Seq::empty(),
    }));
}

/// Recording a session that newly fails or waits over a row that the user did not archive
/// yields one transition of the matching kind, under the session's identifier, title and host
/// and at the time of recording, and leaves the row unread with that kind and time, whatever
/// the session did before. A completion does so after work or waiting.
pub proof fn recording_attention_tells_of_it(
    rows: Seq<StoredSession>,
    session: Session,
    now: i64,
    i: int,
    kind: SessionTransitionKind,
)
    requires
        row_ids(rows).no_duplicates(),
        0 <= i < rows.len(),
        rows[i].session_id@ == session.id@,
        trimmed(session.title@).len() > 0,
        !rows[i].archived || rows[i].archive_reason == Some(ArchiveReason::Stale),
        rows[i].snapshot.activity != session.activity,
        match session.activity {
            Activity::Failed => kind is Failed,
            Activity::WaitingApproval => kind is Approval,
            Activity::WaitingInput => kind is Input,
            Activity::Completed => kind is Completed && (rows[i].snapshot.activity is Working
                || rows[i].snapshot.activity is WaitingApproval
                || rows[i].snapshot.activity is WaitingInput),
            _ => false,
        },
        now >= 0,
    ensures
        ({
            let told = recorded_transitions(rows, seq![session], now);
            let after = recorded(rows, seq![session], now)[i];
            &&& told.len() == 1
            &&& told[0].kind == kind
            &&& told[0].session_id@ == session.id@
            &&& told[0].title@ == session.title@
            &&& told[0].host@ == session.host@
            &&& told[0].observed_at_unix_seconds == now
            &&& after.notification_unread
            &&& after.notification_kind == Some(kind)
            &&& after.notification_at == Some(now)
        }),
{
    lemma_recorded_at(rows, session, now, i);
}

/// Nothing is told of a session that stays as it was, goes to work or becomes unknown, that
/// completes without having worked or waited, or that the user archived; and its mark stays as
/// it was.
pub proof fn recording_tells_of_nothing_else(
    rows: Seq<StoredSession>,
    session: Session,
    now: i64,
    i: int,
)
    requires
        row_ids(rows).no_duplicates(),
        0 <= i < rows.len(),
        rows[i].session_id@ == session.id@,
        trimmed(session.title@).len() > 0,
        (rows[i].archived && rows[i].archive_reason != Some(ArchiveReason::Stale))
            || rows[i].snapshot.activity == session.activity || session.activity is Working
            || session.activity is Unknown || (session.activity is Completed && (
        rows[i].snapshot.activity is Failed || rows[i].snapshot.activity is Unknown)),
    ensures
        recorded_transitions(rows, seq![session], now).len() == 0,
        recorded(rows, seq![session], now)[i].notification_unread == rows[i].notification_unread,
        recorded(rows, seq![session], now)[i].notification_kind == rows[i].notification_kind,
        recorded(rows, seq![session], now)[i].notification_at == rows[i].notification_at,
{
    lemma_recorded_at(rows, session, now, i);
}

/// A session that is seen for the first time is stored as it is, active and read, and nothing
/// is told of it, whatever it does.
pub proof fn a_new_session_asks_for_nothing(rows: Seq<StoredSession>, session: Session, now: i64)
    requires
        !has_row(rows, session.id@),
        trimmed(session.title@).len() > 0,
    ensures
        ({
            let after = recorded(rows, seq![session], now);
            &&& recorded_transitions(rows, seq![session], now).len() == 0
            &&& after.len() == rows.len() + 1
            &&& after.last().session_id@ == session.id@
            &&& after.last().snapshot == session
            &&& !after.last().archived
            &&& !after.last().notification_unread
            &&& after.last().last_seen == now
            &&& forall|i: int| 0 <= i < rows.len() ==> #[trigger] after[i] == rows[i]
        }),
{
    let one = seq![session];
    assert(one.drop_last() =~= Seq::<Session>::empty());
    assert(recorded(rows, one.drop_last(), now) == rows);
    assert(recorded_transitions(rows, one.drop_last(), now).len() == 0);
}

/// Recording a known session replaces what is known of it natively: the snapshot, the time it
/// was seen and the time of its interaction.
pub proof fn recording_replaces_the_snapshot(
    rows: Seq<StoredSession>,
    session: Session,
    now: i64,
    i: int,
)
    requires
        row_ids(rows).no_duplicates(),
        0 <= i < rows.len(),
        rows[i].session_id@ == session.id@,
        trimmed(session.title@).len() > 0,
    ensures
        recorded(rows, seq![session], now)[i].snapshot == session,
        recorded(rows, seq![session], now)[i].last_seen == now,
        session.last_interaction_unix_seconds <= i64::MAX ==> recorded(
            rows,
            seq![session],
            now,
        )[i].last_interaction == session.last_interaction_unix_seconds,
        recorded(rows, seq![session], now)[i].session_id == rows[i].session_id,
{
    lemma_recorded_at(rows, session, now, i);
}

/// A subagent of Oh My Pi without a title is never stored, and nothing is told of it.
pub proof fn untitled_subagents_are_passed_over(
    rows: Seq<StoredSession>,
    session: Session,
    now: i64,
)
    requires
        session.agent is Omp || session.source@ == "omp"@,
        trimmed(session.title@).len() == 0,
    ensures
        recorded(rows, seq![session], now) == rows,
        recorded_transitions(rows, seq![session], now).len() == 0,
{
    let one = seq![session];
    assert(one.drop_last() =~= Seq::<Session>::empty());
    assert(recorded(rows, one.drop_last(), now) == rows);
    assert(recorded_transitions(rows, one.drop_last(), now).len() == 0);
}

/// An untitled session of any other agent is stored like every other.
pub proof fn other_untitled_sessions_are_stored(
    rows: Seq<StoredSession>,
    session: Session,
    now: i64,
)
    requires
        !(session.agent is Omp),
        session.source@ != "omp"@,
        !has_row(rows, session.id@),
    ensures
        recorded(rows, seq![session], now).len() == rows.len() + 1,
        recorded(rows, seq![session], now).last().snapshot == session,
{
    let one = seq![session];
    assert(one.drop_last() =~= Seq::<Session>::empty());
    assert(recorded(rows, one.drop_last(), now) == rows);
    assert(recorded_transitions(rows, one.drop_last(), now).len() == 0);
}

// ---- archiving and settling ----

/// Archiving puts a session out of the active view by the user's choice, at the given time,
/// and marks it read. Restoring puts it back and pins it at the interaction it has.
pub proof fn archiving_is_the_users_choice(row: StoredSession, now: i64)
    ensures
        ({
            let put = archived_row(row, true, now);
            let back = archived_row(row, false, now);
            &&& put.archived && put.archived_at == Some(now)
            &&& put.archive_reason == Some(ArchiveReason::Manual)
            &&& !put.notification_unread
            &&& put.active_override_interaction is None
            &&& !back.archived && back.archived_at is None && back.archive_reason is None
            &&& back.notification_unread == row.notification_unread
            &&& back.active_override_interaction == Some(row.last_interaction)
        }),
{
}

/// A session is settled for want of interaction exactly where it is active and read, has
/// completed or is unknown, was last used no later than the cutoff, and is not pinned at that
/// interaction. Settling changes nothing else of it.
pub proof fn only_idle_sessions_settle(
    rows: Seq<StoredSession>,
    cutoff: int,
    now: i64,
    i: int,
)
    requires
        0 <= i < rows.len(),
    ensures
        ({
            let row = rows[i];
            let after = settled(rows, cutoff, now)[i];
            let idle = !row.archived && !row.notification_unread && row.last_interaction <= cutoff
                && row.active_override_interaction != Some(row.last_interaction) && (
            row.snapshot.activity is Completed || row.snapshot.activity is Unknown);
            &&& settled(rows, cutoff, now).len() == rows.len()
            &&& !idle ==> after == row
            &&& idle ==> after.archived && after.archived_at == Some(now) && after.archive_reason
                == Some(ArchiveReason::Stale)
            &&& after.snapshot == row.snapshot && after.session_id == row.session_id
            &&& after.last_interaction == row.last_interaction
            &&& after.notification_unread == row.notification_unread
        }),
{
}

/// The cutoff lies the given time before the present, as far as times can be stored.
pub proof fn the_cutoff_lies_before_the_present(now: i64, after: u64)
    requires
        after <= i64::MAX,
        now - after >= i64::MIN,
    ensures
        stale_cutoff(now, after) == now - after,
{
}

/// A session that was settled for want of interaction and is used again wakes: it is active,
/// without a trace of having been settled. Not used again, it stays settled.
pub proof fn use_wakes_a_settled_session(
    row: StoredSession,
    session: Session,
    basis: i64,
    now: i64,
)
    requires
        row.archived,
        row.archive_reason == Some(ArchiveReason::Stale),
        row.archive_basis_interaction == Some(basis),
        session.last_interaction_unix_seconds <= i64::MAX,
    ensures
        ({
            let after = refreshed_row(row, session, now);
            &&& session.last_interaction_unix_seconds > basis ==> !after.archived
                && after.archived_at is None && after.archive_reason is None
                && after.archive_basis_interaction is None
            &&& session.last_interaction_unix_seconds <= basis ==> after.archived
                && after.archive_reason == Some(ArchiveReason::Stale)
        }),
{
}

/// What the user put away stays away, and what is active stays active, however often the
/// session is seen again; a session that the user brought back stays pinned until it is used.
pub proof fn the_users_choice_stands(row: StoredSession, session: Session, now: i64)
    requires
        session.last_interaction_unix_seconds <= i64::MAX,
    ensures
        ({
            let after = refreshed_row(row, session, now);
            let at = session.last_interaction_unix_seconds;
            &&& row.archived && row.archive_reason == Some(ArchiveReason::Manual) ==> after.archived
                && after.archived_at == row.archived_at && after.archive_reason
                == row.archive_reason
            &&& !row.archived ==> !after.archived
            &&& row.active_override_interaction matches Some(pinned) ==> (if at > pinned {
                after.active_override_interaction is None
            } else {
                after.active_override_interaction == Some(pinned)
            })
            &&& row.active_override_interaction is None ==> after.active_override_interaction
                is None
        }),
{
}

/// A session that was settled for want of use comes back with its next use, and not before.
pub proof fn a_settled_session_comes_back_with_its_next_use(
    rows: Seq<StoredSession>,
    cutoff: int,
    at: i64,
    i: int,
    session: Session,
    now: i64,
)
    requires
        0 <= i < rows.len(),
        !rows[i].archived,
        settled(rows, cutoff, at)[i].archived,
        session.last_interaction_unix_seconds <= i64::MAX,
    ensures
        refreshed_row(settled(rows, cutoff, at)[i], session, now).archived
            <==> session.last_interaction_unix_seconds <= rows[i].last_interaction,
{
}

/// A session that the user brought back does not settle before it was used again.
pub proof fn a_restored_session_does_not_settle(
    row: StoredSession,
    cutoff: int,
    at: i64,
    now: i64,
)
    ensures
        !settled(seq![archived_row(row, false, at)], cutoff, now)[0].archived,
{
}

/// A row whose interaction was never kept takes it from its snapshot; any other stays.
pub proof fn missing_interaction_times_are_filled_in(row: StoredSession)
    ensures
        row.last_interaction == 0 && row.snapshot.last_interaction_unix_seconds <= i64::MAX
            ==> backfilled_row(row).last_interaction
            == row.snapshot.last_interaction_unix_seconds,
        row.last_interaction != 0 ==> backfilled_row(row) == row,
        backfilled_row(row).snapshot == row.snapshot,
        backfilled_row(row).archived == row.archived,
{
}

/// An acknowledgement marks the session read and changes nothing else, of it or of others.
pub proof fn acknowledging_only_marks_read(rows: Seq<StoredSession>, id: Seq<char>, i: int)
    requires
        0 <= i < rows.len(),
    ensures
        ({
            let after = with_row(rows, id, |row: StoredSession| acknowledged_row(row));
            &&& after.len() == rows.len()
            &&& rows[i].session_id@ == id ==> !after[i].notification_unread
            &&& rows[i].session_id@ != id ==> after[i] == rows[i]
            &&& after[i].snapshot == rows[i].snapshot && after[i].archived == rows[i].archived
            &&& after[i].notification_kind == rows[i].notification_kind
        }),
{
}

/// A view lists a session exactly where a row of that state holds it and it is no untitled
/// session of omp.
pub proof fn a_view_lists_the_sessions_of_its_state(
    rows: Seq<StoredSession>,
    archived: bool,
    session: Session,
)
    ensures
        loaded(rows, archived).contains(session) <==> exists|i: int|
            0 <= i < rows.len() && (#[trigger] rows[i]).snapshot == session && rows[i].archived
                == archived && !((session.agent is Omp || session.source@ == "omp"@) && trimmed(
                session.title@,
            ).len() == 0),
{
    let keep = |row: StoredSession|
        row.archived == archived && !crate::store::is_legacy(row.snapshot);
    let wrap = |row: StoredSession| BySeen { row };
    let kept = rows.filter(keep);
    let by = kept.map_values(wrap);
    let out = loaded_rows(rows, archived);
    assert(out == ranked(by));
    if loaded(rows, archived).contains(session) {
        let k = choose|k: int|
            0 <= k < loaded(rows, archived).len() && loaded(rows, archived)[k] == session;
        assert(out[k].row.snapshot == session);
        crate::order::ranked_contains(by, out[k]);
        assert(out.contains(out[k]));
        let m = choose|m: int| 0 <= m < by.len() && by[m] == out[k];
        assert(kept[m] == out[k].row);
        assert(kept.contains(out[k].row));
        rows.lemma_filter_contains_rev(keep, out[k].row);
        rows.lemma_filter_pred(keep, m);
        let i = choose|i: int| 0 <= i < rows.len() && rows[i] == out[k].row;
        assert(rows[i].snapshot == session);
    }
    if exists|i: int|
        0 <= i < rows.len() && (#[trigger] rows[i]).snapshot == session && rows[i].archived
            == archived && !((session.agent is Omp || session.source@ == "omp"@) && trimmed(
            session.title@,
        ).len() == 0) {
        let i = choose|i: int|
            0 <= i < rows.len() && (#[trigger] rows[i]).snapshot == session && rows[i].archived
                == archived && !((session.agent is Omp || session.source@ == "omp"@) && trimmed(
                session.title@,
            ).len() == 0);
        rows.lemma_filter_contains(keep, i);
        let m = choose|m: int| 0 <= m < kept.len() && kept[m] == rows[i];
        assert(by[m] == BySeen { row: rows[i] });
        assert(by.contains(BySeen { row: rows[i] }));
        crate::order::ranked_contains(by, BySeen { row: rows[i] });
        let k = choose|k: int| 0 <= k < out.len() && out[k] == BySeen { row: rows[i] };
        assert(loaded(rows, archived)[k] == session);
    }
}

/// A session is unread exactly where a row of it has attention that was not acknowledged.
pub proof fn unread_sessions_have_attention(rows: Seq<StoredSession>, id: Seq<char>)
    ensures
        crate::store::unread_ids(rows).contains(id) <==> exists|i: int|
            0 <= i < rows.len() && (#[trigger] rows[i]).session_id@ == id
                && rows[i].notification_unread,
{
    let keep = |row: StoredSession| row.notification_unread;
    let kept = rows.filter(keep);
    let ids = crate::store::unread_ids(rows);
    assert(ids == crate::store::row_ids(kept));
    if ids.contains(id) {
        let k = choose|k: int| 0 <= k < ids.len() && ids[k] == id;
        assert(kept[k].session_id@ == id);
        assert(kept.contains(kept[k]));
        rows.lemma_filter_contains_rev(keep, kept[k]);
        rows.lemma_filter_pred(keep, k);
        let i = choose|i: int| 0 <= i < rows.len() && rows[i] == kept[k];
        assert(rows[i].session_id@ == id);
    }
    if exists|i: int|
        0 <= i < rows.len() && (#[trigger] rows[i]).session_id@ == id
            && rows[i].notification_unread {
        let i = choose|i: int|
            0 <= i < rows.len() && (#[trigger] rows[i]).session_id@ == id
                && rows[i].notification_unread;
        rows.lemma_filter_contains(keep, i);
        let m = choose|m: int| 0 <= m < kept.len() && kept[m] == rows[i];
        assert(ids[m] == id);
    }
}

/// The views of the store list the last seen first.
pub proof fn views_list_the_last_seen_first(
    rows: Seq<StoredSession>,
    archived: bool,
    i: int,
    j: int,
)
    requires
        0 <= i < j < loaded_rows(rows, archived).len(),
    ensures
        loaded(rows, archived).len() == loaded_rows(rows, archived).len(),
        loaded(rows, archived)[i] == loaded_rows(rows, archived)[i].row.snapshot,
        loaded_rows(rows, archived)[i].row.last_seen >= loaded_rows(rows, archived)[j].row.last_seen,
{
    let kept = rows.filter(
        |row: StoredSession| row.archived == archived && !crate::store::is_legacy(row.snapshot),
    ).map_values(|row: StoredSession| BySeen { row });
    ranked_is_in_order(kept);
    assert(crate::order::Ranked::at_most(ranked(kept)[i], ranked(kept)[j]));
}

/// The history lists the latest interaction first, and of those with one time the last seen.
pub proof fn the_history_lists_the_latest_interaction_first(
    rows: Seq<StoredSession>,
    i: int,
    j: int,
)
    requires
        0 <= i < j < history_rows(rows).len(),
    ensures
        history_rows(rows)[i].row.last_interaction >= history_rows(rows)[j].row.last_interaction,
        history_rows(rows)[i].row.last_interaction == history_rows(rows)[j].row.last_interaction
            ==> history_rows(rows)[i].row.last_seen >= history_rows(rows)[j].row.last_seen,
{
    let kept = rows.filter(
        |row: StoredSession| !crate::store::is_legacy(row.snapshot),
    ).map_values(|row: StoredSession| ByRecency { row });
    ranked_is_in_order(kept);
    assert(crate::order::Ranked::at_most(ranked(kept)[i], ranked(kept)[j]));
}

/// An entry of the history tells of its row: the snapshot, whether it is settled and why,
/// whether it is unread and of what kind, and the times that lie after the epoch.
pub proof fn a_history_entry_tells_of_its_row(entry: HistoryEntry, row: StoredSession)
    requires
        is_history_entry(entry, row),
    ensures
        entry.session == row.snapshot,
        entry.settled == row.archived,
        entry.unread == row.notification_unread,
        row.notification_kind == Some(SessionTransitionKind::Completed) ==> entry.notification_kind
            is Some && entry.notification_kind->0@ == "completed"@,
        row.notification_kind == Some(SessionTransitionKind::Approval) ==> entry.notification_kind
            is Some && entry.notification_kind->0@ == "approval"@,
        row.notification_kind == Some(SessionTransitionKind::Input) ==> entry.notification_kind
            is Some && entry.notification_kind->0@ == "input"@,
        row.notification_kind == Some(SessionTransitionKind::Failed) ==> entry.notification_kind
            is Some && entry.notification_kind->0@ == "failed"@,
        row.notification_kind is None ==> entry.notification_kind is None,
        row.archive_reason == Some(ArchiveReason::Manual) ==> entry.settle_reason is Some
            && entry.settle_reason->0@ == "manual"@,
        row.archive_reason == Some(ArchiveReason::Stale) ==> entry.settle_reason is Some
            && entry.settle_reason->0@ == "stale"@,
        row.archive_reason is None ==> entry.settle_reason is None,
        row.notification_at is Some && row.notification_at->0 >= 0
            ==> entry.notification_at_unix_seconds is Some && entry.notification_at_unix_seconds->0
            == row.notification_at->0,
        row.archived_at is Some && row.archived_at->0 >= 0 ==> entry.settled_at_unix_seconds
            is Some && entry.settled_at_unix_seconds->0 == row.archived_at->0,
        row.archived_at is None ==> entry.settled_at_unix_seconds is None,
        row.last_seen >= 0 ==> entry.last_seen_unix_seconds == row.last_seen,
{
}

// ---- how the user hears of it ----

/// The notification of a transition names the kind, the session's title and host, and its
/// identifier.
pub proof fn a_notification_says_what_happened(transition: &SessionTransition, r: Notification)
    requires
        call_ensures(session_transition, (transition,), r),
    ensures
        r.host@ == transition.host@,
        r.session_id is Some && r.session_id->0@ == transition.session_id@,
        transition.kind is Completed ==> r.kind@ == "completed"@ && r.title@ == "Rollcall: "@
            + "Turn complete"@ && r.body@ == transition.title@ + " on "@ + transition.host@ + " "@
            + "is ready"@ + "."@,
        transition.kind is Approval ==> r.kind@ == "approval"@ && r.title@ == "Rollcall: "@
            + "Approval requested"@ && r.body@ == transition.title@ + " on "@ + transition.host@
            + " "@ + "needs approval"@ + "."@,
        transition.kind is Input ==> r.kind@ == "input"@ && r.title@ == "Rollcall: "@
            + "Input requested"@ && r.body@ == transition.title@ + " on "@ + transition.host@
            + " "@ + "needs input"@ + "."@,
        transition.kind is Failed ==> r.kind@ == "failed"@ && r.title@ == "Rollcall: "@
            + "Session failed"@ && r.body@ == transition.title@ + " on "@ + transition.host@ + " "@
            + "needs attention"@ + "."@,
{
}

/// A command for notifications is given everything that the notification says; an empty one
/// silences them, and without one the terminal's bell rings.
pub proof fn a_command_is_told_everything(
    notification: Notification,
    command: Option<String>,
    r: Delivery,
)
    requires
        call_ensures(dispatch, (notification, command), r),
    ensures
        command is None ==> r is Bell,
        command is Some && command->0@.len() == 0 ==> r is Silent,
        command is Some && command->0@.len() > 0 ==> {
            let told = variable_views(r->environment@);
            &&& r is Command
            &&& r->command@ == command->0@
            &&& told.contains(("ROLLCALL_NOTIFICATION_KIND"@, notification.kind@))
            &&& told.contains(("ROLLCALL_NOTIFICATION_TITLE"@, notification.title@))
            &&& told.contains(("ROLLCALL_NOTIFICATION_BODY"@, notification.body@))
            &&& told.contains(("ROLLCALL_NOTIFICATION_HOST"@, notification.host@))
            &&& notification.session_id is Some ==> told.contains(
                ("ROLLCALL_NOTIFICATION_SESSION_ID"@, notification.session_id->0@),
            )
        },
{
    if command is Some && command->0@.len() > 0 {
        let told = variable_views(r->environment@);
        assert(told[0] == ("ROLLCALL_NOTIFICATION_KIND"@, notification.kind@));
        assert(told[1] == ("ROLLCALL_NOTIFICATION_TITLE"@, notification.title@));
        assert(told[2] == ("ROLLCALL_NOTIFICATION_BODY"@, notification.body@));
        assert(told[3] == ("ROLLCALL_NOTIFICATION_HOST"@, notification.host@));
        if notification.session_id is Some {
            assert(told[4] == ("ROLLCALL_NOTIFICATION_SESSION_ID"@, notification.session_id->0@));
        }
    }
}

/// Every transition makes its session unread and notifies the user once, and a watcher is
/// told of it too.
pub proof fn transitions_are_told_and_marked(
    v: PickerView,
    transitions: Seq<SessionTransition>,
    now: u64,
    k: int,
)
    requires
        0 <= k < transitions.len(),
    ensures
        ({
            let after = v.with_transitions(transitions, now);
            &&& after.unread_ids.contains(transitions[k].session_id@)
            &&& after.effects.len() == v.effects.len() + (if v.watching {
                (2 * transitions.len()) as int
            } else {
                transitions.len() as int
            })
            &&& after.effects.contains(EffectView::NotifyTransition(transitions[k]))
            &&& v.watching ==> after.effects.contains(EffectView::EmitTransition(transitions[k]))
            &&& forall|id: Seq<char>| v.unread_ids.contains(id) ==> after.unread_ids.contains(id)
            &&& after.notice is Some && (after.notice->0).1 == now
        }),
{
    crate::picker::refresh::watchers_hear_what_the_user_is_told(transitions, k);
    let ids = transitions.map_values(|transition: SessionTransition| transition.session_id@);
    assert(ids[k] == transitions[k].session_id@);
    assert(ids.contains(transitions[k].session_id@));
    let after = v.with_transitions(transitions, now);
    let told = crate::picker::refresh::transition_effects(transitions, v.watching);
    assert(after.effects == v.effects + told);
    if v.watching {
        assert(after.effects[v.effects.len() + 2 * k] == told[2 * k]);
        assert(after.effects[v.effects.len() + 2 * k + 1] == told[2 * k + 1]);
    } else {
        assert(after.effects[v.effects.len() + k] == told[k]);
    }
}

/// What a probe saw of a session that is fresh on its host replaces its owner and pane. A
/// completion counts always, and work unless the session waits. A process that vanished leaves
/// a resumable session, and what worked has completed. Sessions of other hosts, and cached
/// ones, stay as they were.
pub proof fn an_observation_updates_a_fresh_session(
    session: Session,
    host: Seq<char>,
    fresh: Set<Seq<char>>,
    observations: Map<Seq<char>, LiveObservation>,
)
    ensures
        ({
            let after = live_session(session, host, fresh, observations);
            let seen = session.host@ == host && fresh.contains(session.id@);
            let waits = session.activity is WaitingApproval || session.activity is WaitingInput;
            let found = observations.dom().contains(session.id@);
            let observation = observations[session.id@];
            &&& !seen ==> after == session
            &&& seen && found ==> {
                &&& after.runtime == observation.runtime && after.tmux == observation.tmux
                &&& observation.activity is Completed ==> after.activity is Completed
                &&& observation.activity is Working && !waits ==> after.activity is Working
                &&& observation.activity is Working && waits ==> after.activity
                    == session.activity
                &&& !(observation.activity is Working) && !(observation.activity is Completed)
                    ==> after.activity == session.activity
            }
            &&& seen && !found && !(session.runtime is Resumable) ==> {
                &&& after.runtime is Resumable && after.tmux is None
                &&& session.activity is Working ==> after.activity is Completed
                &&& !(session.activity is Working) ==> after.activity == session.activity
            }
            &&& seen && !found && session.runtime is Resumable ==> after == session
            &&& after.id == session.id && after.title == session.title && after.host
                == session.host && after.last_message == session.last_message
        }),
{
}

/// Each kind of attention and each reason for the archive has its word.
pub proof fn kinds_and_reasons_have_their_words(
    kind: SessionTransitionKind,
    reason: ArchiveReason,
    k: &'static str,
    r: &'static str,
)
    requires
        call_ensures(SessionTransitionKind::as_str, (kind,), k),
        call_ensures(ArchiveReason::as_str, (reason,), r),
    ensures
        kind is Completed ==> k@ == "completed"@,
        kind is Approval ==> k@ == "approval"@,
        kind is Input ==> k@ == "input"@,
        kind is Failed ==> k@ == "failed"@,
        reason is Manual ==> r@ == "manual"@,
        reason is Stale ==> r@ == "stale"@,
{
}

} // verus!
