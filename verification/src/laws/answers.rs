//! What is answered of sessions, rows of the store, paths and hosts.

use vstd::prelude::*;

use crate::agents::codex_sessions;
use crate::codex::{
    compact_message, compact_title, enrich_details, find_native, merge_live_activity, ReadTurn,
};
use crate::domain::{
    observation_views, session_views, Activity, LiveObservation, Session, SessionKey,
};
use crate::json::find_field;
use crate::keyed::StringMap;
use crate::laws::attention::{
    a_view_lists_the_sessions_of_its_state, unread_sessions_have_attention,
};
use crate::laws::dashboard::a_host_is_shown_as_it_was_reached;
use crate::laws::details::the_last_turn_decides_the_activity;
use crate::laws::keys::holds;
use crate::laws::naming::{a_file_adds_its_session, is_content};
use crate::notify::{host_recovered, Notification};
use crate::omp::{correlate_live, file_session, file_view, parse_sessions, OmpError};
use crate::paths::{path_parts, sort_paths, PartView};
use crate::picker::dashboard::activity_priority;
use crate::picker::refresh::{session_needs_detail, sessions_needing_detail};
use crate::picker::{CachedDetail, GroupConnectivity, PickerApp};
use crate::reconnect::HostReconnectState;
use crate::store::{row_ids, state_path, Store, StoreError, StoredSession};
use crate::text::{
    decimal, joined, lines_of, parsed_number, split_text, text_lt, text_lt_irreflexive,
    text_lt_transitive, texts, trimmed, words_of,
};

verus! {

// ---- sessions ----

/// Of two observations of a session, one that saw it work counts, and else one that saw it
/// completed; nothing else is known from them.
pub proof fn work_that_was_seen_counts(current: Activity, observed: Activity, r: Activity)
    requires
        call_ensures(merge_live_activity, (current, observed), r),
    ensures
        current is Working || observed is Working ==> r is Working,
        !(current is Working || observed is Working) && (current is Completed || observed
            is Completed) ==> r is Completed,
        !(current is Working || observed is Working || current is Completed || observed
            is Completed) ==> r is Unknown,
{
}

/// What works stands before what waits, then what has failed, what has completed, and what is
/// not known.
pub proof fn work_comes_first(activity: Activity, other: Activity, r: u8, s: u8)
    requires
        call_ensures(activity_priority, (activity,), r),
        call_ensures(activity_priority, (other,), s),
    ensures
        activity is Working && !(other is Working) ==> r < s,
        (activity is WaitingApproval || activity is WaitingInput) && (other is Failed || other
            is Completed || other is Unknown) ==> r < s,
        (activity is WaitingApproval || activity is WaitingInput) && (other is WaitingApproval
            || other is WaitingInput) ==> r == s,
        activity is Failed && (other is Completed || other is Unknown) ==> r < s,
        activity is Completed && other is Unknown ==> r < s,
{
}

/// A thread without a name is titled by its preview on one line, or by its directory where that
/// is blank, cut to its first characters.
pub proof fn a_preview_is_a_title(preview: &str, cwd: &str, r: String)
    requires
        call_ensures(compact_title, (preview, cwd), r),
    ensures
        ({
            let line = joined(words_of(preview@), " "@);
            &&& 0 < line.len() <= 72 ==> r@ == line
            &&& line.len() > 72 ==> r@ == line.take(72).push('\u{2026}')
            &&& line.len() == 0 && cwd@.len() <= 72 ==> r@ == cwd@
            &&& line.len() == 0 && cwd@.len() > 72 ==> r@ == cwd@.take(72).push('\u{2026}')
        }),
{
}

/// A message is kept on one line, cut to its first characters.
pub proof fn a_message_is_one_line(message: &str, r: String)
    requires
        call_ensures(compact_message, (message,), r),
    ensures
        ({
            let line = joined(words_of(message@), " "@);
            &&& line.len() <= 120 ==> r@ == line
            &&& line.len() > 120 ==> r@ == line.take(120).push('\u{2026}')
        }),
{
}

/// A session is found by the identifier that its agent gave, where there is one.
pub proof fn a_session_is_found_by_its_identifier(
    sessions: &Vec<Session>,
    id: &str,
    r: Option<Session>,
    i: int,
)
    requires
        call_ensures(find_native, (sessions, id), r),
    ensures
        r matches Some(session) ==> session.native_session_id@ == id@ && sessions@.contains(
            session,
        ),
        0 <= i < sessions@.len() && sessions@[i].native_session_id@ == id@ ==> r is Some,
{
    lemma_first_native(sessions@, id@, i);
}

proof fn lemma_first_native(sessions: Seq<Session>, id: Seq<char>, i: int)
    ensures
        crate::codex::first_native(sessions, id) matches Some(session) ==> session.native_session_id@
            == id && sessions.contains(session),
        0 <= i < sessions.len() && sessions[i].native_session_id@ == id
            ==> crate::codex::first_native(sessions, id) is Some,
    decreases sessions.len(),
{
    if sessions.len() > 0 {
        let rest = sessions.drop_first();
        lemma_first_native(rest, id, i - 1);
        assert(sessions[0] == sessions.first());
        if i > 0 && i < sessions.len() {
            assert(rest[i - 1] == sessions[i]);
        }
        if let Some(session) = crate::codex::first_native(rest, id) {
            let k = choose|k: int| 0 <= k < rest.len() && rest[k] == session;
            assert(sessions[k + 1] == session);
        }
    }
}

/// Details that were read reach the threads that they were read of, each by its last turn, and
/// no others.
pub proof fn details_reach_their_threads(
    sessions: &mut Vec<Session>,
    details: &StringMap<Vec<ReadTurn>>,
    i: int,
)
    requires
        call_ensures(enrich_details, (sessions, details), ()),
        0 <= i < old(sessions)@.len(),
    ensures
        ({
            let before = old(sessions)@[i];
            let after = final(sessions)@[i];
            let native = before.native_session_id@;
            let turns = details@[native]@;
            let busy = before.activity is Working || before.activity is WaitingApproval
                || before.activity is WaitingInput;
            &&& final(sessions)@.len() == old(sessions)@.len()
            &&& after.id@ == before.id@ && after.title@ == before.title@
            &&& !details@.dom().contains(native) ==> after.activity == before.activity
                && after.last_message@ == before.last_message@
            &&& details@.dom().contains(native) && turns.len() > 0 && !busy ==> {
                &&& turns.last().status@ == "failed"@ ==> after.activity is Failed
                &&& turns.last().status@ == "inProgress"@ ==> after.activity is Working
                &&& turns.last().status@ == "completed"@ || turns.last().status@ == "interrupted"@
                    ==> after.activity is Completed
            }
        }),
{
    let views = session_views(old(sessions)@);
    let after = session_views(final(sessions)@);
    assert(after.len() == views.len());
    assert(views[i] == old(sessions)@[i].view());
    assert(after[i] == final(sessions)@[i].view());
    the_last_turn_decides_the_activity(
        old(sessions)@[i].view(),
        details@[old(sessions)@[i].native_session_id@]@,
    );
}

/// Only threads are asked for their turns, and all of them are.
pub proof fn threads_are_asked_for_their_turns(
    sessions: &Vec<Session>,
    r: Vec<Session>,
    session: Session,
)
    requires
        call_ensures(codex_sessions, (sessions,), r),
    ensures
        r@.contains(session) <==> sessions@.contains(session) && session.agent is Codex,
{
    let keep = |session: Session| session.agent is Codex;
    if r@.contains(session) {
        let k = choose|k: int| 0 <= k < r@.len() && r@[k] == session;
        sessions@.lemma_filter_pred(keep, k);
        sessions@.lemma_filter_contains_rev(keep, session);
    }
    if sessions@.contains(session) && session.agent is Codex {
        let k = choose|k: int| 0 <= k < sessions@.len() && sessions@[k] == session;
        sessions@.lemma_filter_contains(keep, k);
    }
}

/// A session of Oh My Pi is listed on its host under its identifier; one whose process was seen
/// has the owner, the pane and the activity that were seen; any other stays as its file told.
pub proof fn an_omp_session_is_found_as_it_was_seen(
    sessions: &mut Vec<Session>,
    host: &str,
    live: &StringMap<LiveObservation>,
    i: int,
)
    requires
        call_ensures(correlate_live, (sessions, host, live), ()),
        0 <= i < old(sessions)@.len(),
    ensures
        ({
            let before = old(sessions)@[i];
            let after = final(sessions)@[i];
            let seen = live@.dom().contains(before.native_session_id@);
            let saw = live@[before.native_session_id@];
            &&& final(sessions)@.len() == old(sessions)@.len()
            &&& after.host@ == host@ && after.agent is Omp
            &&& after.native_session_id@ == before.native_session_id@
            &&& after.title@ == before.title@
            &&& !seen ==> after.runtime == before.runtime && after.activity == before.activity
            &&& seen ==> after.runtime == saw.runtime && after.activity == saw.activity
            &&& seen && saw.tmux is None ==> after.tmux is None
            &&& seen && saw.tmux is Some ==> after.tmux is Some && after.tmux->0.session@
                == saw.tmux->0.session@ && after.tmux->0.pane@ == saw.tmux->0.pane@
        }),
{
    let before = session_views(old(sessions)@);
    let after = session_views(final(sessions)@);
    let views = observation_views(live@);
    let native = old(sessions)@[i].native_session_id@;
    assert(after.len() == before.len());
    assert(before[i] == old(sessions)@[i].view());
    assert(after[i] == final(sessions)@[i].view());
    assert(views.dom().contains(native) <==> live@.dom().contains(native));
    if live@.dom().contains(native) {
        assert(views[native] == live@[native].view());
    }
}

/// The first file of a listing tells of the first session.
pub proof fn a_listed_file_is_a_session(
    output: &str,
    now: u64,
    r: Result<Vec<Session>, OmpError>,
    time: Seq<char>,
    path: Seq<char>,
    content: Seq<Seq<char>>,
)
    requires
        call_ensures(parse_sessions, (output, now), r),
        !time.contains('\t'),
        forall|i: int| 0 <= i < content.len() ==> is_content(#[trigger] content[i]),
        lines_of(output@) == seq!["FILE\t"@ + time + seq!['\t'] + path] + content + seq!["END"@],
    ensures
        ({
            let mtime = match parsed_number(time, u64::MAX as nat) {
                Some(n) => n as u64,
                None => 0u64,
            };
            match file_session(file_view(content), mtime, now) {
                Some(session) => r is Ok && r->Ok_0@.len() == 1 && r->Ok_0@[0].view() == session,
                None => r is Ok && r->Ok_0@.len() == 0,
            }
        }),
{
    let none = Seq::<Seq<char>>::empty();
    let head = "FILE\t"@ + time + seq!['\t'] + path;
    a_file_adds_its_session(none, time, path, content, now);
    assert(none + seq![head] + content + seq!["END"@] =~= seq![head] + content + seq!["END"@]);
    let views = session_views(r->Ok_0@);
    assert(views.len() == r->Ok_0@.len());
    if r->Ok_0@.len() > 0 {
        assert(views[0] == r->Ok_0@[0].view());
    }
}

/// A key is written with its host, the name of its agent and the identifier that the agent gave.
pub proof fn a_key_is_written_with_its_parts(key: &SessionKey, r: String)
    requires
        call_ensures(SessionKey::stable_id, (key,), r),
        key.host@.len() > 0,
        !key.host@.contains(':'),
        key.native_session_id@.len() > 0,
    ensures
        key.agent is Codex ==> r@ == key.host@ + ":codex:"@ + key.native_session_id@,
        key.agent is Omp ==> r@ == key.host@ + ":omp:"@ + key.native_session_id@,
        key.agent is Pi ==> r@ == key.host@ + ":pi:"@ + key.native_session_id@,
        key.agent is Hermes ==> r@ == key.host@ + ":hermes:"@ + key.native_session_id@,
        key.agent is Agy ==> r@ == key.host@ + ":agy:"@ + key.native_session_id@,
{
    crate::laws::listing::an_identifier_holds_its_parts(key.host@, key.native_session_id@);
}

/// A field is found by its name: the first one of that name counts.
pub proof fn a_field_is_found_by_its_name(
    fields: &Vec<(String, String)>,
    name: &str,
    r: Option<String>,
    i: int,
)
    requires
        call_ensures(find_field, (fields, name), r),
        0 <= i < fields@.len(),
        fields@[i].0@ == name@,
        forall|j: int| 0 <= j < i ==> (#[trigger] fields@[j]).0@ != name@,
    ensures
        r matches Some(document) && document@ == fields@[i].1@,
{
    let views = crate::json::field_views(fields@);
    assert(views[i] == (fields@[i].0@, fields@[i].1@));
    assert forall|j: int| 0 <= j < i implies (#[trigger] views[j]).0 != name@ by {
        assert(views[j] == (fields@[j].0@, fields@[j].1@));
    }
    lemma_field(views, name@, i);
}

proof fn lemma_field(fields: Seq<(Seq<char>, Seq<char>)>, name: Seq<char>, i: int)
    requires
        0 <= i < fields.len(),
        fields[i].0 == name,
        forall|j: int| 0 <= j < i ==> (#[trigger] fields[j]).0 != name,
    ensures
        crate::json::field_of(fields, name) == Some(fields[i].1),
    decreases fields.len(),
{
    if i > 0 {
        let rest = fields.drop_first();
        assert(fields[0].0 != name);
        assert(rest[i - 1] == fields[i]);
        assert forall|j: int| 0 <= j < i - 1 implies (#[trigger] rest[j]).0 != name by {
            assert(rest[j] == fields[j + 1]);
        }
        lemma_field(rest, name, i - 1);
    }
}

// ---- the store ----

/// The store lists a session exactly where a row of that state holds it, and it is no untitled
/// session of omp.
pub proof fn the_store_lists_by_state(
    store: &Store,
    archived: bool,
    r: Vec<Session>,
    session: Session,
)
    requires
        call_ensures(Store::load, (store, archived), r),
    ensures
        r@.contains(session) <==> exists|i: int|
            0 <= i < store@.len() && (#[trigger] store@[i]).snapshot == session
                && store@[i].archived == archived && !((session.agent is Omp || session.source@
                == "omp"@) && trimmed(session.title@).len() == 0),
{
    a_view_lists_the_sessions_of_its_state(store@, archived, session);
}

/// The store names a session as unread exactly where its attention was not acknowledged.
pub proof fn the_store_names_what_is_unread(store: &Store, r: Vec<String>, id: Seq<char>)
    requires
        call_ensures(Store::unread_session_ids, (store,), r),
    ensures
        texts(r@).contains(id) <==> exists|i: int|
            0 <= i < store@.len() && (#[trigger] store@[i]).session_id@ == id
                && store@[i].notification_unread,
{
    unread_sessions_have_attention(store@, id);
}

/// Rows make a store where no two of them have one identifier; each row is kept, with its
/// interaction filled in where it was never kept.
pub proof fn distinct_rows_make_a_store(rows: Vec<StoredSession>, r: Option<Store>, i: int, j: int)
    requires
        call_ensures(Store::from_rows, (rows,), r),
    ensures
        0 <= i < j < rows@.len() && rows@[i].session_id@ == rows@[j].session_id@ ==> r is None,
        r matches Some(store) ==> store@.len() == rows@.len() && (0 <= i < rows@.len()
            ==> store@[i].snapshot == rows@[i].snapshot && store@[i].archived == rows@[i].archived
            && (rows@[i].last_interaction != 0 ==> store@[i] == rows@[i])),
{
    let ids = row_ids(rows@);
    if 0 <= i < j < rows@.len() && rows@[i].session_id@ == rows@[j].session_id@ {
        assert(ids[i] == ids[j]);
    }
}

/// The store lies where the environment names it, else below the directory for state, else
/// below the home of the user.
pub proof fn the_store_lies_where_it_is_named(
    named: Option<String>,
    state: Option<String>,
    home: Option<String>,
    r: Result<String, StoreError>,
)
    requires
        call_ensures(state_path, (named, state, home), r),
        state is Some ==> state->0@.len() > 0 && state->0@.last() != '/',
        home is Some ==> home->0@.len() > 0 && home->0@.last() != '/',
    ensures
        named is Some ==> (r matches Ok(path) && path@ == named->0@),
        named is None && state is Some ==> (r matches Ok(path) && path@ == state->0@
            + "/rollcall/rollcall.db"@),
        named is None && state is None && home is Some ==> (r matches Ok(path) && path@ == home->0@
            + "/.local/state/rollcall/rollcall.db"@),
        named is None && state is None && home is None ==> r is Err,
{
    reveal_strlit("rollcall");
    reveal_strlit("rollcall.db");
    reveal_strlit("/rollcall/rollcall.db");
    reveal_strlit(".local/state/rollcall/rollcall.db");
    reveal_strlit("/.local/state/rollcall/rollcall.db");
    if state is Some {
        let base = state->0@;
        let inner = base + seq!['/'] + "rollcall"@;
        assert(inner.last() == 'l');
        assert(inner + seq!['/'] + "rollcall.db"@ =~= base + "/rollcall/rollcall.db"@);
    }
    if home is Some {
        assert(home->0@ + seq!['/'] + ".local/state/rollcall/rollcall.db"@ =~= home->0@
            + "/.local/state/rollcall/rollcall.db"@);
    }
}

// ---- hosts ----

/// How long the next attempt is away: the time that is left, or none once it has come.
pub proof fn the_time_that_is_left(state: &HostReconnectState, now: u64, r: Option<u64>)
    requires
        call_ensures(HostReconnectState::retry_in, (state, now), r),
    ensures
        state.next_attempt_at is None <==> r is None,
        state.next_attempt_at matches Some(at) ==> (if at > now {
            r == Some((at - now) as u64)
        } else {
            r == Some(0u64)
        }),
{
}

/// Whether a host is due: where an attempt is planned, and its time has come.
pub proof fn an_attempt_is_due_at_its_time(state: &HostReconnectState, now: u64, r: bool)
    requires
        call_ensures(HostReconnectState::is_due, (state, now), r),
    ensures
        state.next_attempt_at is None ==> !r,
        state.next_attempt_at matches Some(at) ==> (r <==> at <= now),
{
}

/// The connection to a host is shown as it stands, and as online where a session is current.
pub proof fn a_connection_is_shown_as_it_stands(
    app: &PickerApp,
    host: &str,
    fresh: bool,
    now: u64,
    r: GroupConnectivity,
    target: Seq<char>,
)
    requires
        call_ensures(PickerApp::group_connectivity, (app, host, fresh, now), r),
        app@.target_of(host@) == Some(target),
        app@.reconnect.dom().contains(target),
    ensures
        fresh ==> r is Online,
        !fresh && app@.reconnect[target].phase is Connecting ==> r is Checking,
        !fresh && app@.reconnect[target].phase is Blocked ==> r is Blocked,
        !fresh && app@.reconnect[target].phase is Backoff ==> r is Offline,
        !fresh && (app@.reconnect[target].phase is Cached || app@.reconnect[target].phase is Online)
            ==> r is Cached,
{
    a_host_is_shown_as_it_was_reached(app@, host@, target, now);
}

/// A session is archived where it is among the settled ones and not among the active ones.
pub proof fn the_lists_tell_what_is_archived(app: &PickerApp, id: &str, r: Option<bool>)
    requires
        call_ensures(PickerApp::archived_state_for_session, (app, id), r),
    ensures
        holds(app@.active, id@) ==> r == Some(false),
        !holds(app@.active, id@) && holds(app@.settled, id@) ==> r == Some(true),
        !holds(app@.active, id@) && !holds(app@.settled, id@) ==> r is None,
{
    crate::laws::keys::lemma_found(app@.active, id@);
    crate::laws::keys::lemma_found(app@.settled, id@);
}

/// The details of a session are asked for unless they are known, with a message, and as of its
/// last use and change.
pub proof fn details_are_asked_for_once(
    session: &Session,
    cached: &StringMap<CachedDetail>,
    r: bool,
)
    requires
        call_ensures(session_needs_detail, (session, cached), r),
    ensures
        ({
            let id = session.native_session_id@;
            let known = cached@[id];
            !r <==> cached@.dom().contains(id) && known.has_message && known.last_interaction
                == session.last_interaction_unix_seconds && known.updated
                == session.updated_unix_seconds
        }),
{
}

/// The sessions whose details are asked for are those of which they are not known.
pub proof fn only_unknown_details_are_asked_for(
    sessions: Vec<Session>,
    cached: &StringMap<CachedDetail>,
    r: Vec<Session>,
    session: Session,
)
    requires
        call_ensures(sessions_needing_detail, (sessions, cached), r),
    ensures
        ({
            let id = session.native_session_id@;
            let known = cached@[id];
            r@.contains(session) <==> sessions@.contains(session) && !(cached@.dom().contains(id)
                && known.has_message && known.last_interaction
                == session.last_interaction_unix_seconds && known.updated
                == session.updated_unix_seconds)
        }),
{
    let keep = |session: Session| crate::picker::refresh::needs_detail(session, cached@);
    if r@.contains(session) {
        let k = choose|k: int| 0 <= k < r@.len() && r@[k] == session;
        sessions@.lemma_filter_pred(keep, k);
        sessions@.lemma_filter_contains_rev(keep, session);
    }
    if sessions@.contains(session) && keep(session) {
        let k = choose|k: int| 0 <= k < sessions@.len() && sessions@[k] == session;
        sessions@.lemma_filter_contains(keep, k);
    }
}

/// The user is told which host came back, and of how many sessions.
pub proof fn a_recovery_is_told(host: &str, count: usize, r: Notification)
    requires
        call_ensures(host_recovered, (host, count), r),
    ensures
        r.kind@ == "hostRecovered"@,
        r.title@ == "Rollcall: "@ + host@ + " is back online"@,
        r.body@ == "Reconciled "@ + decimal(count as nat) + " sessions."@,
        r.host@ == host@,
        r.session_id is None,
{
}

// ---- paths ----

/// A path of one name.
pub open spec fn is_one_name(path: Seq<char>) -> bool {
    path.len() > 0 && !path.contains('/') && path != "."@ && path != ".."@
}

proof fn lemma_one_name(path: Seq<char>)
    requires
        is_one_name(path),
    ensures
        path_parts(path) == seq![PartView::Named(path)],
{
    crate::text::lemma_first_index(path, '/');
    let at = crate::text::first_index(path, '/') as int;
    if at < path.len() {
        assert(path[at] == '/');
    }
    let pieces = split_text(path, '/');
    assert(pieces == seq![path]);
    assert(pieces.drop_last() =~= Seq::<Seq<char>>::empty());
    assert(crate::paths::parts_of(pieces.drop_last()) =~= Seq::<PartView>::empty());
    assert(pieces.last() == path);
    assert(crate::paths::parts_of(pieces) =~= seq![PartView::Named(path)]);
    assert(path[0] != '/') by {
        if path[0] == '/' {
            assert(path.contains('/'));
        }
    }
    assert(crate::paths::front_of(path) =~= Seq::<PartView>::empty());
    assert(Seq::<PartView>::empty() + seq![PartView::Named(path)] =~= seq![PartView::Named(path)]);
}

/// Sorting paths keeps every one of them, and puts those of one name in the order of their
/// names.
pub proof fn paths_are_sorted_by_name(paths: &Vec<String>, r: Vec<String>, i: int, j: int)
    requires
        call_ensures(sort_paths, (paths,), r),
        0 <= i < j < r@.len(),
    ensures
        r@.len() == paths@.len(),
        is_one_name(r@[i]@) && is_one_name(r@[j]@) ==> !text_lt(r@[j]@, r@[i]@),
        texts(paths@).contains(r@[i]@),
{
    let all = texts(paths@);
    let order = |a: Seq<char>, b: Seq<char>| crate::paths::path_le(a, b);
    let sorted = crate::order::ranked_by(all, order);
    assert(texts(r@) == crate::paths::in_path_order(all));
    assert(crate::paths::in_path_order(all) == sorted);
    crate::order::ranked_by_contains(all, order, sorted[i]);
    assert(texts(r@).len() == r@.len());
    assert(sorted.contains(sorted[i]));
    assert(texts(r@)[i] == r@[i]@ && texts(r@)[j] == r@[j]@);
    crate::paths::paths_are_ordered();
    assert forall|a: Seq<char>, b: Seq<char>| #[trigger] order(a, b) || order(b, a) by {
        assert(crate::paths::path_le(a, b) || crate::paths::path_le(b, a));
    }
    assert forall|a: Seq<char>, b: Seq<char>, c: Seq<char>|
        #[trigger] order(a, b) && #[trigger] order(b, c) implies order(a, c) by {
        assert(crate::paths::path_le(a, b) && crate::paths::path_le(b, c));
    }
    crate::order::ranked_by_is_in_order(all, order, i, j);
    if is_one_name(r@[i]@) && is_one_name(r@[j]@) {
        lemma_one_name(r@[i]@);
        lemma_one_name(r@[j]@);
        let x = path_parts(r@[i]@);
        let y = path_parts(r@[j]@);
        assert(x[0] == PartView::Named(r@[i]@) && y[0] == PartView::Named(r@[j]@));
        assert(x.drop_first().len() == 0 && y.drop_first().len() == 0);
        text_lt_irreflexive(r@[i]@);
        if text_lt(r@[i]@, r@[j]@) && text_lt(r@[j]@, r@[i]@) {
            text_lt_transitive(r@[i]@, r@[j]@, r@[i]@);
        }
    }
}

} // verus!
