//! The inventory of a host: which sessions it lists, in what order, and how they stand.

use vstd::prelude::*;

use crate::agents::{self, adapter_results, answers, found, first_error, enriched, AgentError};
use crate::codex::{self, CodexError, ReadTurn};
use crate::domain::{
    binding_view, observation_views, session_views, AgentKind, LiveObservation, Session,
    SessionView,
};
use crate::keyed::StringMap;
use crate::native::{relabel, NativeError, NativeSession};
use crate::omp::{self, listing, OmpError};
use crate::order::{ranked, ranked_contains, ranked_is_in_order, ranked_is_permutation};
use crate::recency::{
    limited, newest_first, newest_first_keeps_every_session, recent_first, NewestFirst, RecentFirst,
};
use crate::text::{lines_of, text_le};

verus! {

/// The sessions stand with the latest interaction first, and of those with one time the
/// latest update first.
pub open spec fn latest_first(sessions: Seq<Session>) -> bool {
    forall|i: int, j: int|
        0 <= i < j < sessions.len() ==> {
            let a = #[trigger] sessions[i];
            let b = #[trigger] sessions[j];
            &&& a.last_interaction_unix_seconds >= b.last_interaction_unix_seconds
            &&& a.last_interaction_unix_seconds == b.last_interaction_unix_seconds
                ==> a.updated_unix_seconds >= b.updated_unix_seconds
        }
}

proof fn lemma_recent(sessions: Seq<Session>)
    ensures
        recent_first(sessions).len() == sessions.len(),
        latest_first(recent_first(sessions)),
        forall|session: Session|
            recent_first(sessions).contains(session) <==> sessions.contains(session),
{
    let wrapped = sessions.map_values(|session: Session| RecentFirst { session });
    let order = ranked(wrapped);
    let out = recent_first(sessions);
    ranked_is_permutation(wrapped);
    ranked_is_in_order(wrapped);
    assert forall|i: int, j: int| 0 <= i < j < out.len() implies {
        let a = #[trigger] out[i];
        let b = #[trigger] out[j];
        &&& a.last_interaction_unix_seconds >= b.last_interaction_unix_seconds
        &&& a.last_interaction_unix_seconds == b.last_interaction_unix_seconds
            ==> a.updated_unix_seconds >= b.updated_unix_seconds
    } by {
        assert(crate::order::Ranked::at_most(order[i], order[j]));
    }
    assert forall|session: Session|
        out.contains(session) <==> sessions.contains(session) by {
        let target = RecentFirst { session };
        ranked_contains(wrapped, target);
        if sessions.contains(session) {
            let i = choose|i: int| 0 <= i < sessions.len() && sessions[i] == session;
            assert(wrapped[i] == target);
            let k = choose|k: int| 0 <= k < order.len() && order[k] == target;
            assert(out[k] == session);
        }
        if out.contains(session) {
            let k = choose|k: int| 0 <= k < out.len() && out[k] == session;
            assert(order[k] == target);
            assert(order.contains(target));
            let i = choose|i: int| 0 <= i < wrapped.len() && wrapped[i] == target;
            assert(sessions[i] == session);
        }
    }
}

proof fn lemma_newest(sessions: Seq<Session>)
    ensures
        newest_first(sessions).len() == sessions.len(),
        latest_first(newest_first(sessions)),
        forall|i: int, j: int|
            0 <= i < j < sessions.len() && (#[trigger] newest_first(
                sessions,
            )[i]).last_interaction_unix_seconds == (#[trigger] newest_first(
                sessions,
            )[j]).last_interaction_unix_seconds && newest_first(sessions)[i].updated_unix_seconds
                == newest_first(sessions)[j].updated_unix_seconds ==> text_le(
                newest_first(sessions)[i].id@,
                newest_first(sessions)[j].id@,
            ),
{
    let wrapped = sessions.map_values(|session: Session| NewestFirst { session });
    let order = ranked(wrapped);
    let out = newest_first(sessions);
    ranked_is_permutation(wrapped);
    ranked_is_in_order(wrapped);
    assert forall|i: int, j: int| 0 <= i < j < out.len() implies {
        let a = #[trigger] out[i];
        let b = #[trigger] out[j];
        &&& a.last_interaction_unix_seconds >= b.last_interaction_unix_seconds
        &&& a.last_interaction_unix_seconds == b.last_interaction_unix_seconds
            ==> a.updated_unix_seconds >= b.updated_unix_seconds
        &&& a.last_interaction_unix_seconds == b.last_interaction_unix_seconds
            && a.updated_unix_seconds == b.updated_unix_seconds ==> text_le(a.id@, b.id@)
    } by {
        assert(crate::order::Ranked::at_most(order[i], order[j]));
    }
}

proof fn lemma_limited(sessions: Seq<Session>, limit: Option<usize>)
    requires
        latest_first(sessions),
    ensures
        latest_first(limited(sessions, limit)),
        limited(sessions, limit).len() <= sessions.len(),
        limit is Some ==> limited(sessions, limit).len() <= limit->0,
        limit is None || sessions.len() <= limit->0 ==> limited(sessions, limit) == sessions,
        limit is Some && sessions.len() > limit->0 ==> limited(sessions, limit).len() == limit->0,
        forall|i: int|
            0 <= i < limited(sessions, limit).len() ==> #[trigger] limited(sessions, limit)[i]
                == sessions[i],
{
}

/// The host that is asked gives a listed session its host and its stable identifier.
pub open spec fn is_labelled(
    session: Session,
    host: Seq<char>,
    agent: AgentKind,
    name: Seq<char>,
) -> bool {
    &&& session.host@ == host
    &&& session.agent == agent
    &&& session.id@ == host + seq![':'] + (name + seq![':'] + session.native_session_id@)
}

proof fn lemma_listing_resumable(lines: Seq<Seq<char>>, now: u64)
    ensures
        forall|i: int|
            0 <= i < listing(lines, now).sessions.len() ==> (#[trigger] listing(
                lines,
                now,
            ).sessions[i]).runtime is Resumable && listing(lines, now).sessions[i].tmux is None,
    decreases lines.len(),
{
    if lines.len() > 0 {
        lemma_listing_resumable(lines.drop_last(), now);
    }
}

/// Every session of Oh My Pi that is listed belongs to the host that was asked. Where the
/// probe saw its process, the session has the owner, the pane and the activity that the probe
/// saw; where it did not, the session is resumable and has no pane. The latest interaction
/// stands first, and no more are listed than the limit allows.
pub proof fn omp_sessions_are_listed_with_their_live_state(
    output: &str,
    now: u64,
    observed_host: &str,
    live: &StringMap<LiveObservation>,
    limit: Option<usize>,
    r: Result<Vec<Session>, OmpError>,
)
    requires
        call_ensures(omp::discover, (output, now, observed_host, live, limit), r),
    ensures
        r is Ok,
        latest_first(r->Ok_0@),
        limit is Some ==> r->Ok_0@.len() <= limit->0,
        limit is None ==> r->Ok_0@.len() == listing(lines_of(output@), now).sessions.len(),
        forall|i: int|
            0 <= i < r->Ok_0@.len() ==> {
                let session = #[trigger] r->Ok_0@[i];
                let id = session.native_session_id@;
                &&& is_labelled(session, observed_host@, AgentKind::Omp, "omp"@)
                &&& live@.dom().contains(id) ==> session.runtime == live@[id].runtime
                    && session.activity == live@[id].activity && binding_view(session.tmux)
                    == binding_view(live@[id].tmux)
                &&& !live@.dom().contains(id) ==> session.runtime is Resumable && session.tmux
                    is None
            },
{
    let listed = listing(lines_of(output@), now).sessions;
    let views = observation_views(live@);
    lemma_listing_resumable(lines_of(output@), now);
    let rows = choose|rows: Seq<Session>|
        session_views(rows) == omp::all_correlated(listed, observed_host@, views) && r->Ok_0@
            == limited(#[trigger] recent_first(rows), limit);
    lemma_recent(rows);
    lemma_limited(recent_first(rows), limit);
    assert(rows.len() == listed.len()) by {
        assert(session_views(rows).len() == rows.len());
    }
    assert forall|i: int| 0 <= i < r->Ok_0@.len() implies {
        let session = #[trigger] r->Ok_0@[i];
        let id = session.native_session_id@;
        &&& is_labelled(session, observed_host@, AgentKind::Omp, "omp"@)
        &&& live@.dom().contains(id) ==> session.runtime == live@[id].runtime && session.activity
            == live@[id].activity && binding_view(session.tmux) == binding_view(live@[id].tmux)
        &&& !live@.dom().contains(id) ==> session.runtime is Resumable && session.tmux is None
    } by {
        let session = r->Ok_0@[i];
        assert(recent_first(rows)[i] == session);
        assert(recent_first(rows).contains(session));
        assert(rows.contains(session));
        let j = choose|j: int| 0 <= j < rows.len() && rows[j] == session;
        assert(session_views(rows)[j] == session.view());
        assert(session.view() == omp::correlated(listed[j], observed_host@, views));
        let id = session.native_session_id@;
        assert(listed[j].native_session_id == id);
        assert(views.dom().contains(id) == live@.dom().contains(id));
        if live@.dom().contains(id) {
            assert(views[id] == live@[id].view());
        }
    }
}

/// Every thread is listed once for each time it was given, under the host that was asked.
/// Where the probe saw its process, the thread has the owner that the probe saw, and the pane
/// where the owner is a terminal and no other. A completion that the probe saw counts always,
/// work unless the thread waits for the user, and nothing else changes the activity. Where the
/// probe saw nothing, all of it stays as the thread said.
pub proof fn threads_are_listed_with_their_live_state(
    threads: Vec<Session>,
    observed_host: &str,
    live: &StringMap<LiveObservation>,
    r: Vec<Session>,
)
    requires
        call_ensures(codex::discover, (threads, observed_host, live), r),
    ensures
        r@.len() == threads@.len(),
        latest_first(r@),
        forall|i: int|
            0 <= i < r@.len() ==> {
                let session = #[trigger] r@[i];
                is_labelled(session, observed_host@, AgentKind::Codex, "codex"@) && exists|j: int|
                    0 <= j < threads@.len() && stands_as(
                        session,
                        #[trigger] threads@[j],
                        live@,
                    )
            },
{
    let views = observation_views(live@);
    let rows = choose|rows: Seq<Session>|
        session_views(rows) == codex::all_correlated(
            session_views(threads@),
            observed_host@,
            views,
        ) && r@ == #[trigger] recent_first(rows);
    lemma_recent(rows);
    assert(session_views(rows).len() == rows.len());
    assert forall|i: int| 0 <= i < r@.len() implies {
        let session = #[trigger] r@[i];
        is_labelled(session, observed_host@, AgentKind::Codex, "codex"@) && exists|j: int|
            0 <= j < threads@.len() && stands_as(session, #[trigger] threads@[j], live@)
    } by {
        let session = r@[i];
        assert(r@.contains(session));
        assert(rows.contains(session));
        let j = choose|j: int| 0 <= j < rows.len() && rows[j] == session;
        assert(session_views(rows)[j] == session.view());
        assert(session_views(threads@)[j] == threads@[j].view());
        assert(session.view() == codex::correlated(threads@[j].view(), observed_host@, views));
        let id = session.native_session_id@;
        assert(views.dom().contains(id) == live@.dom().contains(id));
        if live@.dom().contains(id) {
            assert(views[id] == live@[id].view());
        }
        assert(stands_as(session, threads@[j], live@));
    }
}

/// A listed session is the thread with what the probe saw of its process.
pub open spec fn stands_as(
    session: Session,
    thread: Session,
    live: Map<Seq<char>, LiveObservation>,
) -> bool {
    let id = thread.native_session_id@;
    let waits = thread.activity is WaitingApproval || thread.activity is WaitingInput;
    &&& session.native_session_id@ == id
    &&& session.title@ == thread.title@ && session.cwd@ == thread.cwd@
    &&& session.source@ == thread.source@ && session.last_message@ == thread.last_message@
    &&& session.last_interaction_unix_seconds == thread.last_interaction_unix_seconds
    &&& session.updated_unix_seconds == thread.updated_unix_seconds
    &&& !live.dom().contains(id) ==> session.runtime == thread.runtime && session.activity
        == thread.activity && binding_view(session.tmux) == binding_view(thread.tmux)
    &&& live.dom().contains(id) ==> {
        &&& session.runtime == live[id].runtime
        &&& live[id].runtime is TmuxFrontend ==> binding_view(session.tmux) == binding_view(
            live[id].tmux,
        )
        &&& !(live[id].runtime is TmuxFrontend) ==> session.tmux is None
        &&& live[id].activity is Completed ==> session.activity is Completed
        &&& live[id].activity is Working && !waits ==> session.activity is Working
        &&& live[id].activity is Working && waits ==> session.activity == thread.activity
        &&& !(live[id].activity is Completed) && !(live[id].activity is Working)
            ==> session.activity == thread.activity
    }
}

/// A probed session is listed under the host that was asked and the agent that was probed,
/// and is otherwise as the probe reported it.
pub proof fn probed_sessions_are_listed_as_reported(
    records: Vec<NativeSession>,
    observed_host: &str,
    agent: AgentKind,
    r: Vec<NativeSession>,
    i: int,
)
    requires
        call_ensures(relabel, (records, observed_host, agent), r),
        0 <= i < records@.len(),
    ensures
        r@.len() == records@.len(),
        is_labelled(r@[i].session, observed_host@, agent, agent.name()),
        r@[i].session.native_session_id@ == records@[i].session.native_session_id@,
        r@[i].session.title@ == records@[i].session.title@,
        r@[i].session.cwd@ == records@[i].session.cwd@,
        r@[i].session.activity == records@[i].session.activity,
        r@[i].session.runtime == records@[i].session.runtime,
        r@[i].session.last_message@ == records@[i].session.last_message@,
        r@[i].session.last_interaction_unix_seconds
            == records@[i].session.last_interaction_unix_seconds,
        r@[i].session.tmux == records@[i].session.tmux,
        r@[i].locator == records@[i].locator,
        r@[i].raw_id == records@[i].raw_id,
        r@[i].profile == records@[i].profile,
        r@[i].ownership_uncertain == records@[i].ownership_uncertain,
{
    assert(crate::native::relabelled_from(r@[i], records@[i], observed_host@, agent));
}

// ---- every agent ----

/// Some adapter found the session.
pub open spec fn some_adapter_found(
    results: Seq<Result<Vec<Session>, AgentError>>,
    session: Session,
) -> bool {
    exists|i: int|
        0 <= i < results.len() && (#[trigger] results[i]) is Ok && results[i]->Ok_0@.contains(
            session,
        )
}

proof fn lemma_found(results: Seq<Result<Vec<Session>, AgentError>>, session: Session)
    ensures
        found(results).contains(session) <==> some_adapter_found(results, session),
    decreases results.len(),
{
    if results.len() > 0 {
        let rest = results.drop_last();
        lemma_found(rest, session);
        assert(forall|i: int| 0 <= i < rest.len() ==> #[trigger] rest[i] == results[i]);
        let more = match results.last() {
            Ok(sessions) => sessions@,
            Err(_) => Seq::empty(),
        };
        assert(found(results) == found(rest) + more);
        if found(results).contains(session) {
            let k = choose|k: int| 0 <= k < found(results).len() && found(results)[k] == session;
            if k < found(rest).len() {
                assert(found(rest)[k] == session);
                let i = choose|i: int|
                    0 <= i < rest.len() && (#[trigger] rest[i]) is Ok && rest[i]->Ok_0@.contains(
                        session,
                    );
                assert(results[i] == rest[i]);
            } else {
                assert(more[k - found(rest).len()] == session);
                assert(results[results.len() - 1] is Ok);
            }
        }
        if some_adapter_found(results, session) {
            let i = choose|i: int|
                0 <= i < results.len() && (#[trigger] results[i]) is Ok
                    && results[i]->Ok_0@.contains(session);
            if i < rest.len() {
                assert(rest[i] == results[i]);
                let k = choose|k: int| 0 <= k < found(rest).len() && found(rest)[k] == session;
                assert(found(results)[k] == session);
            } else {
                let k = choose|k: int| 0 <= k < more.len() && more[k] == session;
                assert(found(results)[found(rest).len() + k] == session);
            }
        }
    }
}

proof fn lemma_first_error(results: Seq<Result<Vec<Session>, AgentError>>)
    ensures
        first_error(results) is None <==> forall|i: int|
            0 <= i < results.len() ==> (#[trigger] results[i]) is Ok,
    decreases results.len(),
{
    if results.len() > 0 {
        let rest = results.drop_last();
        lemma_first_error(rest);
        assert(results[results.len() - 1] == results.last());
        if forall|i: int| 0 <= i < results.len() ==> (#[trigger] results[i]) is Ok {
            assert forall|i: int| 0 <= i < rest.len() implies (#[trigger] rest[i]) is Ok by {
                assert(results[i] is Ok);
            }
        }
        if first_error(results) is None {
            assert forall|i: int| 0 <= i < results.len() implies (#[trigger] results[i]) is Ok by {
                if i < rest.len() {
                    assert(rest[i] is Ok);
                }
            }
        }
    }
}

/// An inventory lists what the adapters found and nothing else, the latest interaction first,
/// and with a limit the latest. It fails only where no adapter found anything and one failed,
/// and then with the failure of the first one that did.
pub proof fn an_inventory_lists_what_the_adapters_found(
    results: Vec<Result<Vec<Session>, AgentError>>,
    limit: Option<usize>,
    r: Result<Vec<Session>, AgentError>,
)
    requires
        call_ensures(agents::discover, (results, limit), r),
    ensures
        r is Ok ==> latest_first(r->Ok_0@),
        r is Ok && limit is Some ==> r->Ok_0@.len() <= limit->0,
        r is Ok ==> forall|session: Session|
            r->Ok_0@.contains(session) ==> some_adapter_found(results@, session),
        r is Ok && limit is None ==> forall|session: Session|
            some_adapter_found(results@, session) ==> r->Ok_0@.contains(session),
        r is Ok && limit is Some && r->Ok_0@.len() < limit->0 ==> forall|session: Session|
            some_adapter_found(results@, session) ==> r->Ok_0@.contains(session),
        r is Err ==> forall|session: Session| !some_adapter_found(results@, session),
        (exists|session: Session| some_adapter_found(results@, session)) ==> r is Ok,
        (forall|i: int| 0 <= i < results@.len() ==> (#[trigger] results@[i]) is Ok) ==> r is Ok,
        r is Err ==> exists|k: int|
            0 <= k < results@.len() && (#[trigger] results@[k]) is Err && r->Err_0
                == results@[k]->Err_0 && forall|j: int|
                0 <= j < k ==> (#[trigger] results@[j]) is Ok,
{
    let all = found(results@);
    lemma_newest(all);
    lemma_limited(newest_first(all), limit);
    lemma_first_error(results@);
    assert forall|session: Session|
        r is Ok && r->Ok_0@.contains(session) implies some_adapter_found(results@, session) by {
        let k = choose|k: int| 0 <= k < r->Ok_0@.len() && r->Ok_0@[k] == session;
        assert(newest_first(all)[k] == session);
        assert(newest_first(all).contains(session));
        newest_first_keeps_every_session(all, session);
        lemma_found(results@, session);
    }
    assert forall|session: Session| some_adapter_found(results@, session) implies (r is Ok && (
    limit is None || r->Ok_0@.len() < limit->0) ==> r->Ok_0@.contains(session)) && all.len()
        > 0 by {
        lemma_found(results@, session);
        newest_first_keeps_every_session(all, session);
    }
    if r is Err {
        lemma_first_failure(results@);
        assert forall|session: Session| !some_adapter_found(results@, session) by {
            if some_adapter_found(results@, session) {
                lemma_found(results@, session);
                assert(all.contains(session));
            }
        }
    }
    if exists|session: Session| some_adapter_found(results@, session) {
        let session = choose|session: Session| some_adapter_found(results@, session);
        lemma_found(results@, session);
        assert(all.contains(session));
    }
}

proof fn lemma_first_failure(results: Seq<Result<Vec<Session>, AgentError>>)
    requires
        first_error(results) is Some,
    ensures
        exists|k: int|
            0 <= k < results.len() && (#[trigger] results[k]) is Err && first_error(results)->0
                == results[k]->Err_0 && forall|j: int|
                0 <= j < k ==> (#[trigger] results[j]) is Ok,
    decreases results.len(),
{
    let rest = results.drop_last();
    assert(forall|i: int| 0 <= i < rest.len() ==> #[trigger] rest[i] == results[i]);
    if first_error(rest) is Some {
        lemma_first_failure(rest);
        let k = choose|k: int|
            0 <= k < rest.len() && (#[trigger] rest[k]) is Err && first_error(rest)->0
                == rest[k]->Err_0 && forall|j: int| 0 <= j < k ==> (#[trigger] rest[j]) is Ok;
        assert(results[k] is Err);
        assert forall|j: int| 0 <= j < k implies (#[trigger] results[j]) is Ok by {
            assert(rest[j] is Ok);
        }
    } else {
        lemma_first_error(rest);
        let k = results.len() - 1;
        assert(results[k] is Err);
        assert forall|j: int| 0 <= j < k implies (#[trigger] results[j]) is Ok by {
            assert(rest[j] is Ok);
        }
    }
}

/// The answers of the adapters count in the order Codex, Oh My Pi, Pi, Hermes, Antigravity. A
/// Codex that is not installed answers with nothing, whatever else it is said to have answered,
/// and one of which that is not known has failed.
pub proof fn the_adapters_answer_in_their_order(
    available: Result<bool, CodexError>,
    codex: Result<Vec<Session>, CodexError>,
    omp: Result<Vec<Session>, OmpError>,
    pi: Result<Vec<Session>, NativeError>,
    hermes: Result<Vec<Session>, NativeError>,
    agy: Result<Vec<Session>, NativeError>,
    r: Vec<Result<Vec<Session>, AgentError>>,
)
    requires
        call_ensures(adapter_results, (available, codex, omp, pi, hermes, agy), r),
    ensures
        r@.len() == 5,
        available == Ok::<bool, CodexError>(false) ==> r@[0] is Ok && r@[0]->Ok_0@.len() == 0,
        available == Ok::<bool, CodexError>(true) && codex is Ok ==> r@[0] is Ok && r@[0]->Ok_0@
            == codex->Ok_0@,
        available == Ok::<bool, CodexError>(true) && codex is Err ==> r@[0] is Err
            && r@[0]->Err_0 == AgentError::Codex(codex->Err_0),
        available is Err ==> r@[0] is Err && r@[0]->Err_0 == AgentError::Codex(available->Err_0),
        omp is Ok ==> r@[1] is Ok && r@[1]->Ok_0@ == omp->Ok_0@,
        omp is Err ==> r@[1] is Err && r@[1]->Err_0 == AgentError::Omp(omp->Err_0),
        pi is Ok ==> r@[2] is Ok && r@[2]->Ok_0@ == pi->Ok_0@,
        pi is Err ==> r@[2] is Err && r@[2]->Err_0 == AgentError::Native(pi->Err_0),
        hermes is Ok ==> r@[3] is Ok && r@[3]->Ok_0@ == hermes->Ok_0@,
        hermes is Err ==> r@[3] is Err && r@[3]->Err_0 == AgentError::Native(hermes->Err_0),
        agy is Ok ==> r@[4] is Ok && r@[4]->Ok_0@ == agy->Ok_0@,
        agy is Err ==> r@[4] is Err && r@[4]->Err_0 == AgentError::Native(agy->Err_0),
{
    let told = answers(r@);
    assert(told.len() == r@.len());
    assert forall|i: int| 0 <= i < r@.len() implies (#[trigger] told[i] is Ok) == (r@[i] is Ok) && (
    r@[i] is Ok ==> told[i]->Ok_0 == r@[i]->Ok_0@) && (r@[i] is Err ==> told[i]->Err_0
        == r@[i]->Err_0) by {}
    assert(told[0] is Ok == r@[0] is Ok);
    assert(told[1] is Ok == r@[1] is Ok);
    assert(told[2] is Ok == r@[2] is Ok);
    assert(told[3] is Ok == r@[3] is Ok);
    assert(told[4] is Ok == r@[4] is Ok);
}

/// Details are read for sessions of Codex only: all others, and those whose details could not
/// be read, stay as they were.
pub proof fn details_reach_only_threads(
    sessions: Seq<SessionView>,
    details: Map<Seq<char>, Vec<ReadTurn>>,
    i: int,
)
    requires
        0 <= i < sessions.len(),
    ensures
        enriched(sessions, details).len() == sessions.len(),
        !(sessions[i].agent is Codex) ==> enriched(sessions, details)[i] == sessions[i],
        !details.dom().contains(sessions[i].native_session_id) ==> enriched(sessions, details)[i]
            == sessions[i],
        sessions[i].agent is Codex && details.dom().contains(sessions[i].native_session_id)
            ==> enriched(sessions, details)[i] == codex::detailed(
            sessions[i],
            details[sessions[i].native_session_id]@,
        ),
{
}

} // verus!
