//! Sessions in the order of their native recency.

use vstd::prelude::*;

use crate::domain::Session;
use crate::order::{ranked, ranked_contains, stable_sort, Ranked};
use crate::text::{lt, same, text_le, text_lt, text_lt_total, text_lt_transitive};

verus! {

/// A session in an adapter's order: the latest interaction first, then the latest update.
pub struct RecentFirst {
    pub session: Session,
}

impl Ranked for RecentFirst {
    open spec fn at_most(self, other: Self) -> bool {
        let a = self.session;
        let b = other.session;
        a.last_interaction_unix_seconds > b.last_interaction_unix_seconds || (
        a.last_interaction_unix_seconds == b.last_interaction_unix_seconds
            && a.updated_unix_seconds >= b.updated_unix_seconds)
    }

    proof fn at_most_total(a: Self, b: Self) {
    }

    proof fn at_most_transitive(a: Self, b: Self, c: Self) {
    }

    fn is_at_most(&self, other: &Self) -> (r: bool) {
        let a: &Session = &self.session;
        let b: &Session = &other.session;
        a.last_interaction_unix_seconds > b.last_interaction_unix_seconds || (
        a.last_interaction_unix_seconds == b.last_interaction_unix_seconds
            && a.updated_unix_seconds >= b.updated_unix_seconds)
    }
}

/// The sessions in an adapter's order; sessions of one time keep the order they had.
pub open spec fn recent_first(sessions: Seq<Session>) -> Seq<Session> {
    ranked(sessions.map_values(|session: Session| RecentFirst { session })).map_values(
        |by: RecentFirst| by.session,
    )
}

/// Puts sessions in an adapter's order.
pub fn sort_recent_first(sessions: Vec<Session>) -> (r: Vec<Session>)
    ensures
        r@ == recent_first(sessions@),
{
    let ghost all = sessions@;
    let mut wrapped: Vec<RecentFirst> = Vec::new();
    for session in it: sessions
        invariant
            it.seq() == all,
            wrapped@ == all.take(it.index()).map_values(
                |session: Session| RecentFirst { session },
            ),
    {
        wrapped.push(RecentFirst { session });
        assert(wrapped@ =~= all.take(it.index() + 1).map_values(
            |session: Session| RecentFirst { session },
        ));
    }
    assert(all.take(all.len() as int) =~= all);
    let sorted: Vec<RecentFirst> = stable_sort(wrapped);
    let ghost order = sorted@;
    let mut r: Vec<Session> = Vec::new();
    for by in it: sorted
        invariant
            it.seq() == order,
            r@ == order.take(it.index()).map_values(|by: RecentFirst| by.session),
    {
        r.push(by.session);
        assert(r@ =~= order.take(it.index() + 1).map_values(|by: RecentFirst| by.session));
    }
    assert(order.take(order.len() as int) =~= order);
    r
}

/// A session in the order of a host's inventory: the latest interaction first, then the
/// latest update, then the identifier.
pub struct NewestFirst {
    pub session: Session,
}

impl Ranked for NewestFirst {
    open spec fn at_most(self, other: Self) -> bool {
        let a = self.session;
        let b = other.session;
        if a.last_interaction_unix_seconds != b.last_interaction_unix_seconds {
            a.last_interaction_unix_seconds > b.last_interaction_unix_seconds
        } else if a.updated_unix_seconds != b.updated_unix_seconds {
            a.updated_unix_seconds > b.updated_unix_seconds
        } else {
            text_le(a.id@, b.id@)
        }
    }

    proof fn at_most_total(a: Self, b: Self) {
        text_lt_total(a.session.id@, b.session.id@);
    }

    proof fn at_most_transitive(a: Self, b: Self, c: Self) {
        if text_lt(a.session.id@, b.session.id@) && text_lt(b.session.id@, c.session.id@) {
            text_lt_transitive(a.session.id@, b.session.id@, c.session.id@);
        }
    }

    fn is_at_most(&self, other: &Self) -> (r: bool) {
        let a: &Session = &self.session;
        let b: &Session = &other.session;
        if a.last_interaction_unix_seconds != b.last_interaction_unix_seconds {
            a.last_interaction_unix_seconds > b.last_interaction_unix_seconds
        } else if a.updated_unix_seconds != b.updated_unix_seconds {
            a.updated_unix_seconds > b.updated_unix_seconds
        } else {
            same(a.id.as_str(), b.id.as_str()) || lt(a.id.as_str(), b.id.as_str())
        }
    }
}

/// The sessions in the order of a host's inventory.
pub open spec fn newest_first(sessions: Seq<Session>) -> Seq<Session> {
    ranked(sessions.map_values(|session: Session| NewestFirst { session })).map_values(
        |by: NewestFirst| by.session,
    )
}

/// Puts sessions in the order of a host's inventory.
pub fn sort_newest_first(sessions: Vec<Session>) -> (r: Vec<Session>)
    ensures
        r@ == newest_first(sessions@),
{
    let ghost all = sessions@;
    let mut wrapped: Vec<NewestFirst> = Vec::new();
    for session in it: sessions
        invariant
            it.seq() == all,
            wrapped@ == all.take(it.index()).map_values(
                |session: Session| NewestFirst { session },
            ),
    {
        wrapped.push(NewestFirst { session });
        assert(wrapped@ =~= all.take(it.index() + 1).map_values(
            |session: Session| NewestFirst { session },
        ));
    }
    assert(all.take(all.len() as int) =~= all);
    let sorted: Vec<NewestFirst> = stable_sort(wrapped);
    let ghost order = sorted@;
    let mut r: Vec<Session> = Vec::new();
    for by in it: sorted
        invariant
            it.seq() == order,
            r@ == order.take(it.index()).map_values(|by: NewestFirst| by.session),
    {
        r.push(by.session);
        assert(r@ =~= order.take(it.index() + 1).map_values(|by: NewestFirst| by.session));
    }
    assert(order.take(order.len() as int) =~= order);
    r
}

/// At most so many sessions from the front, where a limit is given.
pub open spec fn limited(sessions: Seq<Session>, limit: Option<usize>) -> Seq<Session> {
    match limit {
        Some(n) => if sessions.len() <= n {
            sessions
        } else {
            sessions.take(n as int)
        },
        None => sessions,
    }
}

/// Keeps at most so many sessions from the front, where a limit is given.
pub fn limit_sessions(sessions: &mut Vec<Session>, limit: Option<usize>)
    ensures
        final(sessions)@ == limited(old(sessions)@, limit),
{
    if let Some(n) = limit {
        if sessions.len() > n {
            sessions.truncate(n);
            assert(sessions@ =~= old(sessions)@.take(n as int));
        }
    }
}

/// Every session of the inventory's order was given, and every given one is in it.
pub proof fn newest_first_keeps_every_session(sessions: Seq<Session>, session: Session)
    ensures
        newest_first(sessions).len() == sessions.len(),
        newest_first(sessions).contains(session) <==> sessions.contains(session),
{
    let wrap = |session: Session| NewestFirst { session };
    let wrapped = sessions.map_values(wrap);
    let target = NewestFirst { session };
    crate::order::ranked_is_permutation(wrapped);
    ranked_contains(wrapped, target);
    let order = ranked(wrapped);
    let out = newest_first(sessions);
    if sessions.contains(session) {
        let i = choose|i: int| 0 <= i < sessions.len() && sessions[i] == session;
        assert(wrapped[i] == target);
        let k = choose|k: int| 0 <= k < order.len() && order[k] == target;
        assert(out[k] == session);
    }
    if out.contains(session) {
        let k = choose|k: int| 0 <= k < out.len() && out[k] == session;
        assert(order[k] == target);
        assert(order.contains(target));
        let i = choose|i: int| 0 <= i < wrapped.len() && wrapped[i] == target;
        assert(sessions[i] == session);
    }
}

/// No session that the limit cut off is newer than one that it kept, whichever agent it
/// belongs to.
pub proof fn the_newest_sessions_survive_the_limit(
    sessions: Seq<Session>,
    limit: usize,
    kept: int,
    cut: int,
)
    requires
        0 <= kept < limit <= cut < sessions.len(),
    ensures
        limited(newest_first(sessions), Some(limit)).len() == limit,
        limited(newest_first(sessions), Some(limit))[kept] == newest_first(sessions)[kept],
        newest_first(sessions)[kept].last_interaction_unix_seconds >= newest_first(
            sessions,
        )[cut].last_interaction_unix_seconds,
{
    let wrapped = sessions.map_values(|session: Session| NewestFirst { session });
    crate::order::ranked_is_permutation(wrapped);
    crate::order::ranked_is_in_order(wrapped);
    let order = ranked(wrapped);
    assert(order[kept].at_most(order[cut]));
}

} // verus!
