//! What the answers of the hosts do, and which hosts are asked next.

use vstd::prelude::*;

use crate::agents::observed_host;
use crate::domain::{
    binding_eq, clone_binding, merge_observed_activity, merged_activity, same_binding, Activity,
    LiveObservation, RuntimeOwner, Session,
};
use crate::keyed::{StringMap, StringSet};
use crate::order::{lemma_ranked_view, ranked_by, stable_sort, Ranked};
use crate::reconnect::{
    attempting, classify_failure, failed_state, failure_hash, is_blocking, jitter_hash, one_more,
    reached, requested, within_clock, FailureClass, HostReconnectState,
};
use crate::store::{
    acknowledged_row, archived_row, has_row, loaded, recorded, recorded_transitions, settled,
    stale_cutoff, stored_seconds, to_stored_seconds, unread_ids, with_row, SessionTransition,
    StoreError, StoredSession, DEFAULT_STALE_AFTER_SECONDS,
};
use crate::text::{
    decimal, decimal_of, lemma_texts_push, lt, same, text_le, text_lt, text_lt_total,
    text_lt_transitive, texts, trim, trimmed,
};
use crate::tmux::observed_host_text;

use super::dashboard::{activity_is_current, is_current};
use super::view::text::{cached_preview, cached_text};
use super::{
    effect_views, find_by_id, lemma_effects_push, selection_view, CachedDetail, Clock, ContentView,
    DashboardSelection, Effect, EffectView, PickerApp, PickerView, PreviewContent, PreviewView,
    RefreshEvent, SelectionView, LOCAL_ACTIVITY_POLL_INTERVAL, MAX_CONCURRENT_HOST_REFRESHES,
    NOTICE_DURATION, REMOTE_ACTIVITY_POLL_INTERVAL,
};

verus! {

// ---- sessions of a host ----

/// A session without what only a live process tells.
pub open spec fn at_rest(session: Session) -> Session {
    Session { runtime: RuntimeOwner::Resumable, tmux: None, ..session }
}

fn put_to_rest(session: &mut Session)
    ensures
        *final(session) == at_rest(*old(session)),
{
    session.runtime = RuntimeOwner::Resumable;
    session.tmux = None;
}

/// The sessions, those of a host at rest.
pub open spec fn rested_on(sessions: Seq<Session>, host: Seq<char>) -> Seq<Session> {
    sessions.map_values(
        |session: Session| if session.host@ == host { at_rest(session) } else { session },
    )
}

fn rest_sessions_on(sessions: &mut Vec<Session>, host: &str)
    ensures
        final(sessions)@ == rested_on(old(sessions)@, host@),
{
    let ghost before = sessions@;
    let mut i: usize = 0;
    while i < sessions.len()
        invariant
            i <= before.len(),
            sessions@.len() == before.len(),
            forall|j: int| i <= j < before.len() ==> sessions@[j] == before[j],
            forall|j: int|
                0 <= j < i ==> #[trigger] sessions@[j] == rested_on(before, host@)[j],
        decreases before.len() - i,
    {
        if same(sessions[i].host.as_str(), host) {
            let mut session: Session = sessions[i].clone();
            put_to_rest(&mut session);
            sessions.set(i, session);
        }
        i += 1;
    }
    assert(sessions@ =~= rested_on(before, host@));
}

/// The sessions, those that this run has not heard of at rest.
pub open spec fn rested_unless(sessions: Seq<Session>, fresh: Set<Seq<char>>) -> Seq<Session> {
    sessions.map_values(
        |session: Session|
            if fresh.contains(session.id@) {
                session
            } else {
                at_rest(session)
            },
    )
}

fn rest_sessions_unless(sessions: &mut Vec<Session>, fresh: &StringSet)
    ensures
        final(sessions)@ == rested_unless(old(sessions)@, fresh@),
{
    let ghost before = sessions@;
    let mut i: usize = 0;
    while i < sessions.len()
        invariant
            i <= before.len(),
            sessions@.len() == before.len(),
            forall|j: int| i <= j < before.len() ==> sessions@[j] == before[j],
            forall|j: int|
                0 <= j < i ==> #[trigger] sessions@[j] == rested_unless(before, fresh@)[j],
        decreases before.len() - i,
    {
        if !fresh.contains(sessions[i].id.as_str()) {
            let mut session: Session = sessions[i].clone();
            put_to_rest(&mut session);
            sessions.set(i, session);
        }
        i += 1;
    }
    assert(sessions@ =~= rested_unless(before, fresh@));
}

/// The identifiers of the sessions of a host.
pub open spec fn ids_on(sessions: Seq<Session>, host: Seq<char>) -> Set<Seq<char>> {
    Set::new(
        |id: Seq<char>|
            exists|i: int|
                0 <= i < sessions.len() && (#[trigger] sessions[i]).host@ == host
                    && sessions[i].id@ == id,
    )
}

fn forget_ids_on(fresh: &mut StringSet, sessions: &Vec<Session>, host: &str)
    ensures
        final(fresh)@ == old(fresh)@.difference(ids_on(sessions@, host@)),
{
    let ghost before = fresh@;
    let mut i: usize = 0;
    assert(before.difference(ids_on(sessions@.take(0), host@)) =~= before);
    while i < sessions.len()
        invariant
            i <= sessions@.len(),
            fresh@ == before.difference(ids_on(sessions@.take(i as int), host@)),
        decreases sessions@.len() - i,
    {
        let session: &Session = &sessions[i];
        let here: bool = same(session.host.as_str(), host);
        proof {
            let some = sessions@.take(i as int);
            let more = sessions@.take(i + 1);
            assert forall|id: Seq<char>| #[trigger] ids_on(more, host@).contains(id) == (ids_on(
                some,
                host@,
            ).contains(id) || (here && id == session.id@)) by {
                if ids_on(some, host@).contains(id) {
                    let k = choose|k: int|
                        0 <= k < some.len() && (#[trigger] some[k]).host@ == host@ && some[k].id@
                            == id;
                    assert(more[k] == some[k]);
                }
                if ids_on(more, host@).contains(id) {
                    let k = choose|k: int|
                        0 <= k < more.len() && (#[trigger] more[k]).host@ == host@ && more[k].id@
                            == id;
                    if k < i {
                        assert(some[k] == more[k]);
                    }
                }
                assert(more[i as int] == *session);
            }
            if here {
                assert(before.difference(ids_on(more, host@)) =~= before.difference(
                    ids_on(some, host@),
                ).remove(session.id@));
            } else {
                assert(before.difference(ids_on(more, host@)) =~= before.difference(
                    ids_on(some, host@),
                ));
            }
        }
        if here {
            fresh.remove(session.id.as_str());
        }
        i += 1;
    }
    assert(sessions@.take(i as int) =~= sessions@);
}

/// The identifiers of sessions.
pub open spec fn ids_of(sessions: Seq<Session>) -> Set<Seq<char>> {
    sessions.map_values(|session: Session| session.id@).to_set()
}

fn add_ids(ids: &mut StringSet, sessions: &Vec<Session>)
    ensures
        final(ids)@ == old(ids)@.union(ids_of(sessions@)),
{
    let ghost before = ids@;
    let ghost names = sessions@.map_values(|session: Session| session.id@);
    let mut i: usize = 0;
    proof {
        assert(names.take(0).to_set() =~= Set::<Seq<char>>::empty());
        assert(before.union(names.take(0).to_set()) =~= before);
    }
    while i < sessions.len()
        invariant
            i <= sessions@.len(),
            names == sessions@.map_values(|session: Session| session.id@),
            ids@ == before.union(names.take(i as int).to_set()),
        decreases sessions@.len() - i,
    {
        ids.insert(sessions[i].id.clone());
        proof {
            lemma_take_set(names, i as int);
            assert(before.union(names.take(i + 1).to_set()) =~= before.union(
                names.take(i as int).to_set(),
            ).insert(names[i as int]));
        }
        i += 1;
    }
    assert(names.take(i as int) =~= names);
}

proof fn lemma_take_set<A>(s: Seq<A>, i: int)
    requires
        0 <= i < s.len(),
    ensures
        s.take(i + 1).to_set() == s.take(i).to_set().insert(s[i]),
{
    let some = s.take(i);
    let more = s.take(i + 1);
    assert forall|x: A| more.to_set().contains(x) == some.to_set().insert(s[i]).contains(x) by {
        if some.contains(x) {
            let k = choose|k: int| 0 <= k < some.len() && some[k] == x;
            assert(more[k] == x);
        }
        if more.contains(x) {
            let k = choose|k: int| 0 <= k < more.len() && more[k] == x;
            if k < i {
                assert(some[k] == x);
            }
        }
        assert(more[i] == s[i]);
    }
    assert(more.to_set() =~= some.to_set().insert(s[i]));
}

/// What was known of the sessions of a host, by native identifier; the last one counts.
pub open spec fn details_on(sessions: Seq<Session>, host: Seq<char>) -> Map<
    Seq<char>,
    CachedDetail,
>
    decreases sessions.len(),
{
    if sessions.len() == 0 {
        Map::empty()
    } else {
        let before = details_on(sessions.drop_last(), host);
        let session = sessions.last();
        if session.host@ == host {
            before.insert(
                session.native_session_id@,
                CachedDetail {
                    last_interaction: session.last_interaction_unix_seconds,
                    updated: session.updated_unix_seconds,
                    has_message: session.last_message@.len() > 0,
                },
            )
        } else {
            before
        }
    }
}

fn add_details(details: &mut StringMap<CachedDetail>, session: &Session, host: &str)
    ensures
        final(details)@ == (if session.host@ == host@ {
            old(details)@.insert(
                session.native_session_id@,
                CachedDetail {
                    last_interaction: session.last_interaction_unix_seconds,
                    updated: session.updated_unix_seconds,
                    has_message: session.last_message@.len() > 0,
                },
            )
        } else {
            old(details)@
        }),
{
    if same(session.host.as_str(), host) {
        details.insert(
            session.native_session_id.clone(),
            CachedDetail {
                last_interaction: session.last_interaction_unix_seconds,
                updated: session.updated_unix_seconds,
                has_message: !session.last_message.as_str().is_empty(),
            },
        );
    }
}

/// A session's details are not known yet, or have changed.
pub open spec fn needs_detail(session: Session, cached: Map<Seq<char>, CachedDetail>) -> bool {
    let id = session.native_session_id@;
    !cached.dom().contains(id) || !cached[id].has_message || cached[id].last_interaction
        != session.last_interaction_unix_seconds || cached[id].updated
        != session.updated_unix_seconds
}

/// Whether a session's details have to be read.
pub fn session_needs_detail(session: &Session, cached: &StringMap<CachedDetail>) -> (r: bool)
    ensures
        r == needs_detail(*session, cached@),
{
    match cached.get(session.native_session_id.as_str()) {
        None => true,
        Some(detail) => !detail.has_message || detail.last_interaction
            != session.last_interaction_unix_seconds || detail.updated
            != session.updated_unix_seconds,
    }
}

/// The sessions whose details have to be read, in their order.
pub fn sessions_needing_detail(sessions: Vec<Session>, cached: &StringMap<CachedDetail>) -> (r:
    Vec<Session>)
    ensures
        r@ == sessions@.filter(|session: Session| needs_detail(session, cached@)),
{
    let ghost all = sessions@;
    let ghost keep = |session: Session| needs_detail(session, cached@);
    let mut r: Vec<Session> = Vec::new();
    proof {
        reveal(Seq::filter);
        assert(all.take(0).filter(keep) =~= Seq::<Session>::empty());
    }
    for session in it: sessions
        invariant
            it.seq() == all,
            keep == (|session: Session| needs_detail(session, cached@)),
            r@ == all.take(it.index()).filter(keep),
    {
        proof {
            assert(all.take(it.index() + 1) =~= all.take(it.index()).push(session));
            all.take(it.index()).lemma_filter_push(session, keep);
        }
        if session_needs_detail(&session, cached) {
            r.push(session);
        }
    }
    assert(all.take(all.len() as int) =~= all);
    r
}

// ---- which hosts are asked ----

/// A host that is due to be asked, with whether it matters to the user.
pub struct DueTarget {
    pub important: bool,
    pub target: String,
}

/// A target may be asked before another: the important ones first, and else by name.
pub open spec fn asked_before(a: (bool, Seq<char>), b: (bool, Seq<char>)) -> bool {
    if a.0 != b.0 {
        a.0
    } else {
        text_le(a.1, b.1)
    }
}

impl Ranked for DueTarget {
    open spec fn at_most(self, other: Self) -> bool {
        asked_before((self.important, self.target@), (other.important, other.target@))
    }

    proof fn at_most_total(a: Self, b: Self) {
        text_lt_total(a.target@, b.target@);
    }

    proof fn at_most_transitive(a: Self, b: Self, c: Self) {
        if text_lt(a.target@, b.target@) && text_lt(b.target@, c.target@) {
            text_lt_transitive(a.target@, b.target@, c.target@);
        }
    }

    fn is_at_most(&self, other: &Self) -> (r: bool) {
        if self.important != other.important {
            self.important
        } else {
            same(self.target.as_str(), other.target.as_str()) || lt(
                self.target.as_str(),
                other.target.as_str(),
            )
        }
    }
}

/// The order in which hosts are asked.
pub open spec fn asking_order() -> spec_fn((bool, Seq<char>), (bool, Seq<char>)) -> bool {
    |a: (bool, Seq<char>), b: (bool, Seq<char>)| asked_before(a, b)
}

/// The target of a place in the order.
pub open spec fn target_at(place: (bool, Seq<char>)) -> Seq<char> {
    place.1
}

impl PickerView {
    /// Without a notice that was shown long enough.
    pub open spec fn with_notice_expired(self, now: u64) -> PickerView {
        PickerView {
            notice: match self.notice {
                Some((text, shown_at)) => if now - shown_at >= NOTICE_DURATION {
                    None
                } else {
                    Some((text, shown_at))
                },
                None => None,
            },
            ..self
        }
    }

    /// Nothing that was asked at the start is still awaited.
    pub open spec fn is_reconciled(self) -> bool {
        &&& self.initial_targets_remaining == Set::<Seq<char>>::empty()
        &&& self.pending_hosts == Set::<Seq<char>>::empty()
        &&& self.enriching_hosts == Set::<Seq<char>>::empty()
        &&& self.activity_pending == Set::<Seq<char>>::empty()
    }

    /// The host matters to the user: it is the local one, the one chosen or looked at, or one
    /// with a session that works or waits.
    pub open spec fn is_important(self, target: Seq<char>) -> bool {
        let host = observed_host_text(target, self.local_hostname);
        ||| target == "local"@
        ||| self.host_filter == host
        ||| (self.chosen_session() is Some && self.chosen_session()->0.host@ == host)
        ||| has_current(self.active, host)
    }

    /// A host is due to be asked.
    pub open spec fn is_due(self, target: Seq<char>, now: u64) -> bool {
        !self.pending_hosts.contains(target) && !self.enriching_hosts.contains(target)
            && self.reconnect.dom().contains(target) && self.reconnect[target].due(now)
    }

    /// The hosts that are due, in the order in which they are asked.
    pub open spec fn due_targets(self, now: u64) -> Seq<Seq<char>> {
        ranked_by(
            self.discovery_targets.filter(
                |target: Seq<char>| self.is_due(target, now),
            ).map_values(|target: Seq<char>| (self.is_important(target), target)),
            asking_order(),
        ).map_values(|place: (bool, Seq<char>)| target_at(place))
    }

    /// What is known of the sessions that a target has.
    pub open spec fn cached_details(self, target: Seq<char>) -> Map<Seq<char>, CachedDetail> {
        details_on(
            self.active + self.settled,
            observed_host_text(target, self.local_hostname),
        )
    }

    /// The state after a host is asked.
    pub open spec fn asking(self, target: Seq<char>) -> PickerView {
        if !self.reconnect.dom().contains(target) {
            self
        } else {
            PickerView {
                reconnect: self.reconnect.insert(target, attempting(self.reconnect[target])),
                pending_hosts: self.pending_hosts.insert(target),
                effects: self.effects.push(
                    EffectView::Discover {
                        generation: self.refresh_generation,
                        target,
                        limit: self.limit,
                        cached: self.cached_details(target),
                    },
                ),
                ..self
            }
        }
    }

    /// The state after hosts are asked, one after the other.
    pub open spec fn asking_all(self, targets: Seq<Seq<char>>) -> PickerView
        decreases targets.len(),
    {
        if targets.len() == 0 {
            self
        } else {
            self.asking_all(targets.drop_last()).asking(targets.last())
        }
    }

    /// How many more hosts can be asked.
    pub open spec fn capacity(self) -> nat {
        if self.pending_hosts.len() >= MAX_CONCURRENT_HOST_REFRESHES {
            0
        } else {
            (MAX_CONCURRENT_HOST_REFRESHES - self.pending_hosts.len()) as nat
        }
    }

    /// The state after the hosts that are due are asked, as many as can be.
    pub open spec fn with_due_hosts_asked(self, now: u64) -> PickerView {
        if self.capacity() == 0 {
            self
        } else {
            let due = self.due_targets(now);
            let chosen = if due.len() < self.capacity() {
                due
            } else {
                due.take(self.capacity() as int)
            };
            self.asking_all(chosen).with_refresh_status()
        }
    }

    /// What is said of the refresh.
    pub open spec fn refresh_status(self) -> Seq<char> {
        if self.pending_hosts != Set::<Seq<char>>::empty() {
            "Checking "@ + decimal(self.pending_hosts.len())
                + " hosts · cached sessions are ready"@
        } else if self.enriching_hosts != Set::<Seq<char>>::empty() {
            decimal(self.reachable_hosts.len())
                + " hosts reachable · loading message details from "@ + decimal(
                self.enriching_hosts.len(),
            )
        } else if self.host_errors == Map::<Seq<char>, String>::empty() {
            "Loaded "@ + decimal(self.active.len()) + " active and "@ + decimal(self.settled.len())
                + " settled sessions from "@ + decimal(self.reachable_hosts.len()) + " hosts."@
        } else {
            "Loaded "@ + decimal(self.active.len()) + " active · "@ + decimal(
                self.reachable_hosts.len(),
            ) + " reachable · "@ + decimal(self.host_errors.dom().len())
                + " unavailable · retries are automatic"@
        }
    }

    /// The state with what is said of the refresh.
    pub open spec fn with_refresh_status(self) -> PickerView {
        PickerView { status: Some(self.refresh_status()), ..self }
    }

    /// The state after a refresh of every host was started.
    pub open spec fn with_refresh_started(self, now: u64) -> PickerView {
        PickerView {
            refresh_generation: self.refresh_generation.wrapping_add(1),
            enriching_hosts: Set::empty(),
            activity_pending: Set::empty(),
            pending_hosts: Set::empty(),
            last_activity_poll: Map::empty(),
            reconnect: self.reconnect.map_values(|state: HostReconnectState| requested(now)),
            status: Some("Refreshing configured hosts…"@),
            ..self
        }.with_due_hosts_asked(now)
    }

    /// A session of a host is live.
    pub open spec fn has_live_session(self, host: Seq<char>) -> bool {
        has_live(self.active, host, self.fresh_ids) || has_live(
            self.settled,
            host,
            self.fresh_ids,
        )
    }

    /// The processes of a host are to be looked at.
    pub open spec fn is_polled(self, target: Seq<char>, now: u64) -> bool {
        let interval = if target == "local"@ {
            LOCAL_ACTIVITY_POLL_INTERVAL
        } else {
            REMOTE_ACTIVITY_POLL_INTERVAL
        };
        &&& !self.activity_pending.contains(target)
        &&& !self.pending_hosts.contains(target)
        &&& !self.host_errors.dom().contains(target)
        &&& self.last_activity_poll.dom().contains(target) ==> now
            - self.last_activity_poll[target] >= interval
        &&& self.has_live_session(observed_host_text(target, self.local_hostname))
    }

    /// The state after a host's processes are looked at.
    pub open spec fn polling(self, target: Seq<char>, now: u64) -> PickerView {
        PickerView {
            last_activity_poll: self.last_activity_poll.insert(target, now),
            activity_pending: self.activity_pending.insert(target),
            effects: self.effects.push(
                EffectView::ObserveLive { generation: self.refresh_generation, target },
            ),
            ..self
        }
    }

    /// The state after the processes of hosts are looked at, one after the other.
    pub open spec fn polling_all(self, targets: Seq<Seq<char>>, now: u64) -> PickerView
        decreases targets.len(),
    {
        if targets.len() == 0 {
            self
        } else {
            self.polling_all(targets.drop_last(), now).polling(targets.last(), now)
        }
    }

    /// The state after the processes of the hosts whose turn it is are looked at.
    pub open spec fn with_activity_polled(self, now: u64) -> PickerView {
        self.polling_all(
            self.discovery_targets.filter(|target: Seq<char>| self.is_polled(target, now)),
            now,
        )
    }
}

/// A session of a host is live.
pub open spec fn has_live(sessions: Seq<Session>, host: Seq<char>, fresh: Set<Seq<char>>) -> bool {
    exists|i: int|
        0 <= i < sessions.len() && (#[trigger] sessions[i]).host@ == host && fresh.contains(
            sessions[i].id@,
        ) && !(sessions[i].runtime is Resumable)
}

/// A session of a host works or waits.
pub open spec fn has_current(sessions: Seq<Session>, host: Seq<char>) -> bool {
    exists|i: int|
        0 <= i < sessions.len() && (#[trigger] sessions[i]).host@ == host && is_current(
            sessions[i].activity,
        )
}

fn any_current(sessions: &Vec<Session>, host: &str) -> (r: bool)
    ensures
        r == has_current(sessions@, host@),
{
    let mut i: usize = 0;
    while i < sessions.len()
        invariant
            i <= sessions@.len(),
            forall|j: int|
                0 <= j < i ==> !((#[trigger] sessions@[j]).host@ == host@ && is_current(
                    sessions@[j].activity,
                )),
        decreases sessions@.len() - i,
    {
        let session: &Session = &sessions[i];
        if same(session.host.as_str(), host) && activity_is_current(session.activity) {
            return true;
        }
        i += 1;
    }
    false
}

fn any_live(sessions: &Vec<Session>, host: &str, fresh: &StringSet) -> (r: bool)
    ensures
        r == has_live(sessions@, host@, fresh@),
{
    let mut i: usize = 0;
    while i < sessions.len()
        invariant
            i <= sessions@.len(),
            forall|j: int|
                0 <= j < i ==> !((#[trigger] sessions@[j]).host@ == host@ && fresh@.contains(
                    sessions@[j].id@,
                ) && !(sessions@[j].runtime is Resumable)),
        decreases sessions@.len() - i,
    {
        let session: &Session = &sessions[i];
        if same(session.host.as_str(), host) && fresh.contains(session.id.as_str())
            && session.runtime != RuntimeOwner::Resumable {
            return true;
        }
        i += 1;
    }
    false
}

impl PickerApp {
    fn is_important_target(&self, target: &str) -> (r: bool)
        requires
            self@.wf(),
        ensures
            r == self@.is_important(target@),
    {
        if same(target, "local") {
            return true;
        }
        let host: String = observed_host(target, self.local_hostname.as_str());
        if same(self.host_filter.as_str(), host.as_str()) {
            return true;
        }
        if let Some(session) = self.selected_session() {
            if same(session.host.as_str(), host.as_str()) {
                return true;
            }
        }
        any_current(&self.active, host.as_str())
    }

    fn cached_details(&self, target: &str) -> (r: StringMap<CachedDetail>)
        ensures
            r@ == self@.cached_details(target@),
    {
        let host: String = observed_host(target, self.local_hostname.as_str());
        let ghost all = self@.active + self@.settled;
        let mut details: StringMap<CachedDetail> = StringMap::new();
        let mut i: usize = 0;
        assert(all.take(0) =~= Seq::<Session>::empty());
        while i < self.active.len()
            invariant
                i <= self.active@.len(),
                all == self@.active + self@.settled,
                details@ == details_on(all.take(i as int), host@),
            decreases self.active@.len() - i,
        {
            proof {
                assert(all.take(i + 1).drop_last() =~= all.take(i as int));
                assert(all.take(i + 1).last() == self.active@[i as int]);
            }
            add_details(&mut details, &self.active[i], host.as_str());
            i += 1;
        }
        let mut j: usize = 0;
        let ghost n = self.active@.len();
        while j < self.settled.len()
            invariant
                j <= self.settled@.len(),
                all == self@.active + self@.settled,
                n == self@.active.len(),
                details@ == details_on(all.take(n + j), host@),
            decreases self.settled@.len() - j,
        {
            proof {
                assert(all.take(n + j + 1).drop_last() =~= all.take(n + j));
                assert(all.take(n + j + 1).last() == self.settled@[j as int]);
            }
            add_details(&mut details, &self.settled[j], host.as_str());
            j += 1;
        }
        assert(all.take(all.len() as int) =~= all);
        details
    }

    fn start_host_refresh(&mut self, target: &str)
        requires
            old(self)@.wf(),
        ensures
            final(self)@ == old(self)@.asking(target@),
            final(self)@.wf(),
    {
        let mut state: HostReconnectState = match self.reconnect.get(target) {
            Some(state) => *state,
            None => {
                return;
            },
        };
        state.begin_attempt();
        let cached: StringMap<CachedDetail> = self.cached_details(target);
        self.reconnect.insert(target.to_owned(), state);
        self.pending_hosts.insert(target.to_owned());
        let effect = Effect::Discover {
            generation: self.refresh_generation,
            target: target.to_owned(),
            limit: self.limit,
            cached,
        };
        proof {
            lemma_effects_push(self.effects@, effect);
        }
        self.effects.push(effect);
    }

    fn update_refresh_status(&mut self)
        ensures
            final(self)@ == old(self)@.with_refresh_status(),
            old(self)@.wf() ==> final(self)@.wf(),
    {
        let mut text: String;
        if !self.pending_hosts.is_empty() {
            text = "Checking ".to_owned();
            text.append(decimal_of(self.pending_hosts.len() as u64).as_str());
            text.append(" hosts · cached sessions are ready");
        } else if !self.enriching_hosts.is_empty() {
            text = decimal_of(self.reachable_hosts.len() as u64);
            text.append(" hosts reachable · loading message details from ");
            text.append(decimal_of(self.enriching_hosts.len() as u64).as_str());
        } else if self.host_errors.is_empty() {
            text = "Loaded ".to_owned();
            text.append(decimal_of(self.active.len() as u64).as_str());
            text.append(" active and ");
            text.append(decimal_of(self.settled.len() as u64).as_str());
            text.append(" settled sessions from ");
            text.append(decimal_of(self.reachable_hosts.len() as u64).as_str());
            text.append(" hosts.");
        } else {
            text = "Loaded ".to_owned();
            text.append(decimal_of(self.active.len() as u64).as_str());
            text.append(" active · ");
            text.append(decimal_of(self.reachable_hosts.len() as u64).as_str());
            text.append(" reachable · ");
            text.append(decimal_of(self.host_errors.len() as u64).as_str());
            text.append(" unavailable · retries are automatic");
        }
        self.status = Some(text);
    }
}

/// A due target as its place in the order.
spec fn due_place(due: DueTarget) -> (bool, Seq<char>) {
    (due.important, due.target@)
}

impl PickerApp {
    fn is_due_target(&self, target: &str, now: u64) -> (r: bool)
        ensures
            r == self@.is_due(target@, now),
    {
        if self.pending_hosts.contains(target) || self.enriching_hosts.contains(target) {
            return false;
        }
        match self.reconnect.get(target) {
            Some(state) => state.is_due(now),
            None => false,
        }
    }

    fn due_targets(&self, now: u64) -> (r: Vec<DueTarget>)
        requires
            self@.wf(),
        ensures
            r@.map_values(|due: DueTarget| due.target@) == self@.due_targets(now),
    {
        let ghost v = self@;
        let ghost keep = |target: Seq<char>| v.is_due(target, now);
        let ghost wrap = |target: Seq<char>| (v.is_important(target), target);
        let ghost place = |due: DueTarget| due_place(due);
        let ghost targets = v.discovery_targets;
        let mut due: Vec<DueTarget> = Vec::new();
        let mut i: usize = 0;
        proof {
            reveal(Seq::filter);
            assert(targets.take(0).filter(keep) =~= Seq::<Seq<char>>::empty());
            assert(due@.map_values(place) =~= targets.take(0).filter(keep).map_values(wrap));
        }
        while i < self.discovery_targets.len()
            invariant
                v == self@,
                v.wf(),
                keep == (|target: Seq<char>| v.is_due(target, now)),
                wrap == (|target: Seq<char>| (v.is_important(target), target)),
                place == (|due: DueTarget| due_place(due)),
                targets == v.discovery_targets,
                i <= self.discovery_targets@.len(),
                due@.map_values(place) == targets.take(i as int).filter(keep).map_values(wrap),
            decreases self.discovery_targets@.len() - i,
        {
            let target: &String = &self.discovery_targets[i];
            proof {
                assert(targets[i as int] == target@);
                assert(targets.take(i + 1) =~= targets.take(i as int).push(target@));
                targets.take(i as int).lemma_filter_push(target@, keep);
            }
            if self.is_due_target(target.as_str(), now) {
                let entry = DueTarget {
                    important: self.is_important_target(target.as_str()),
                    target: target.clone(),
                };
                proof {
                    let some = targets.take(i as int).filter(keep);
                    assert(some.push(target@).map_values(wrap) =~= some.map_values(wrap).push(
                        wrap(target@),
                    ));
                    assert(due@.push(entry).map_values(place) =~= due@.map_values(place).push(
                        place(entry),
                    ));
                }
                due.push(entry);
            }
            i += 1;
        }
        assert(targets.take(i as int) =~= targets);
        let ghost all = due@;
        let sorted: Vec<DueTarget> = stable_sort(due);
        proof {
            lemma_ranked_view(all, place, asking_order());
            assert(sorted@.map_values(|due: DueTarget| due.target@) =~= sorted@.map_values(
                place,
            ).map_values(|place: (bool, Seq<char>)| target_at(place)));
        }
        sorted
    }

    /// Asks the hosts that are due, as many as can be asked at a time, the important ones
    /// first.
    pub fn maybe_start_host_refreshes(&mut self, clock: Clock)
        requires
            old(self)@.wf(),
        ensures
            final(self)@ == old(self)@.with_due_hosts_asked(clock.monotonic_millis),
            final(self)@.wf(),
    {
        let ghost v = self@;
        let pending: usize = self.pending_hosts.len();
        if pending >= MAX_CONCURRENT_HOST_REFRESHES {
            return;
        }
        let capacity: usize = MAX_CONCURRENT_HOST_REFRESHES - pending;
        let due: Vec<DueTarget> = self.due_targets(clock.monotonic_millis);
        let ghost targets = v.due_targets(clock.monotonic_millis);
        let chosen: usize = if due.len() < capacity { due.len() } else { capacity };
        let mut i: usize = 0;
        assert(targets.len() == due@.len());
        assert(targets.take(0) =~= Seq::<Seq<char>>::empty());
        while i < chosen
            invariant
                i <= chosen <= due@.len(),
                v.wf(),
                targets == due@.map_values(|due: DueTarget| due.target@),
                self@ == v.asking_all(targets.take(i as int)),
                self@.wf(),
            decreases chosen - i,
        {
            proof {
                assert(targets.take(i + 1).drop_last() =~= targets.take(i as int));
                assert(targets.take(i + 1).last() == due@[i as int].target@);
            }
            self.start_host_refresh(due[i].target.as_str());
            i += 1;
        }
        proof {
            if due@.len() < capacity {
                assert(targets.take(chosen as int) =~= targets);
            }
        }
        self.update_refresh_status();
    }

    /// Starts a refresh of every host.
    pub fn start_refresh(&mut self, clock: Clock)
        requires
            old(self)@.wf(),
        ensures
            final(self)@ == old(self)@.with_refresh_started(clock.monotonic_millis),
            final(self)@.wf(),
    {
        let now: u64 = clock.monotonic_millis;
        let ghost v = self@;
        self.refresh_generation = self.refresh_generation.wrapping_add(1);
        self.enriching_hosts.clear();
        self.activity_pending.clear();
        self.pending_hosts.clear();
        self.last_activity_poll.clear();
        let targets: Vec<String> = self.reconnect.keys();
        let ghost names = texts(targets@);
        let ghost goal = v.reconnect.map_values(|state: HostReconnectState| requested(now));
        let ghost before = self@;
        let mut i: usize = 0;
        assert(names.take(0).to_set() =~= Set::<Seq<char>>::empty());
        assert(goal.restrict(names.take(0).to_set()).dom() =~= Set::<Seq<char>>::empty());
        assert(v.reconnect.union_prefer_right(goal.restrict(names.take(0).to_set()))
            =~= v.reconnect);
        while i < targets.len()
            invariant
                i <= targets@.len(),
                names == texts(targets@),
                names.to_set() == v.reconnect.dom(),
                goal == v.reconnect.map_values(|state: HostReconnectState| requested(now)),
                self@ == (PickerView {
                    reconnect: v.reconnect.union_prefer_right(
                        goal.restrict(names.take(i as int).to_set()),
                    ),
                    ..before
                }),
            decreases targets@.len() - i,
        {
            proof {
                assert(names[i as int] == targets@[i as int]@);
                assert(names.to_set().contains(names[i as int]));
                lemma_take_set(names, i as int);
                assert(v.reconnect.union_prefer_right(
                    goal.restrict(names.take(i + 1).to_set()),
                ) =~= v.reconnect.union_prefer_right(
                    goal.restrict(names.take(i as int).to_set()),
                ).insert(names[i as int], requested(now)));
            }
            self.reconnect.insert(targets[i].clone(), HostReconnectState::new(now));
            i += 1;
        }
        proof {
            assert(names.take(i as int) =~= names);
            assert(v.reconnect.union_prefer_right(goal.restrict(names.to_set())) =~= goal);
        }
        self.status = Some("Refreshing configured hosts…".to_owned());
        self.maybe_start_host_refreshes(clock);
    }

    fn is_polled_target(&self, target: &str, now: u64) -> (r: bool)
        ensures
            r == self@.is_polled(target@, now),
    {
        if self.activity_pending.contains(target) || self.pending_hosts.contains(target)
            || self.host_errors.contains_key(target) {
            return false;
        }
        let interval: u64 = if same(target, "local") {
            LOCAL_ACTIVITY_POLL_INTERVAL
        } else {
            REMOTE_ACTIVITY_POLL_INTERVAL
        };
        if let Some(started) = self.last_activity_poll.get(target) {
            if now < *started || now - *started < interval {
                return false;
            }
        }
        let host: String = observed_host(target, self.local_hostname.as_str());
        any_live(&self.active, host.as_str(), &self.fresh_ids) || any_live(
            &self.settled,
            host.as_str(),
            &self.fresh_ids,
        )
    }

    /// Looks at the processes of the hosts whose turn it is.
    pub fn maybe_start_activity_poll(&mut self, clock: Clock)
        requires
            old(self)@.wf(),
        ensures
            final(self)@ == old(self)@.with_activity_polled(clock.monotonic_millis),
            final(self)@.wf(),
    {
        let now: u64 = clock.monotonic_millis;
        let ghost v = self@;
        let ghost keep = |target: Seq<char>| v.is_polled(target, now);
        let ghost targets = v.discovery_targets;
        let mut chosen: Vec<String> = Vec::new();
        let mut i: usize = 0;
        proof {
            reveal(Seq::filter);
            assert(targets.take(0).filter(keep) =~= Seq::<Seq<char>>::empty());
            assert(texts(chosen@) =~= targets.take(0).filter(keep));
        }
        while i < self.discovery_targets.len()
            invariant
                v == self@,
                keep == (|target: Seq<char>| v.is_polled(target, now)),
                targets == v.discovery_targets,
                i <= self.discovery_targets@.len(),
                texts(chosen@) == targets.take(i as int).filter(keep),
            decreases self.discovery_targets@.len() - i,
        {
            let target: &String = &self.discovery_targets[i];
            proof {
                assert(targets[i as int] == target@);
                assert(targets.take(i + 1) =~= targets.take(i as int).push(target@));
                targets.take(i as int).lemma_filter_push(target@, keep);
            }
            if self.is_polled_target(target.as_str(), now) {
                let copy: String = target.clone();
                proof {
                    lemma_texts_push(chosen@, copy);
                }
                chosen.push(copy);
            }
            i += 1;
        }
        assert(targets.take(i as int) =~= targets);
        let ghost names = texts(chosen@);
        let mut j: usize = 0;
        assert(names.take(0) =~= Seq::<Seq<char>>::empty());
        while j < chosen.len()
            invariant
                v.wf(),
                j <= chosen@.len(),
                names == texts(chosen@),
                self@ == v.polling_all(names.take(j as int), now),
                self@.wf(),
            decreases chosen@.len() - j,
        {
            proof {
                assert(names.take(j + 1).drop_last() =~= names.take(j as int));
                assert(names.take(j + 1).last() == chosen@[j as int]@);
            }
            self.last_activity_poll.insert(chosen[j].clone(), now);
            self.activity_pending.insert(chosen[j].clone());
            let effect = Effect::ObserveLive {
                generation: self.refresh_generation,
                target: chosen[j].clone(),
            };
            proof {
                lemma_effects_push(self.effects@, effect);
            }
            self.effects.push(effect);
            j += 1;
        }
        assert(names.take(j as int) =~= names);
    }
}

// ---- what answers do ----

/// What is to be done for transitions: the user is told of each, and so is whoever watches.
pub open spec fn transition_effects(transitions: Seq<SessionTransition>, watching: bool) -> Seq<
    EffectView,
>
    decreases transitions.len(),
{
    if transitions.len() == 0 {
        Seq::empty()
    } else {
        let before = transition_effects(transitions.drop_last(), watching);
        let told = before.push(EffectView::NotifyTransition(transitions.last()));
        if watching {
            told.push(EffectView::EmitTransition(transitions.last()))
        } else {
            told
        }
    }
}

/// The identifiers of the sessions of transitions.
pub open spec fn transition_ids(transitions: Seq<SessionTransition>) -> Set<Seq<char>> {
    transitions.map_values(|transition: SessionTransition| transition.session_id@).to_set()
}

/// What is said of transitions.
pub open spec fn transition_notice(transitions: Seq<SessionTransition>) -> Seq<char> {
    if transitions.len() == 1 {
        transitions[0].kind.name() + " · "@ + transitions[0].title@ + " on "@
            + transitions[0].host@
    } else {
        decimal(transitions.len()) + " sessions need attention"@
    }
}

/// What an observation makes of a session: its process may have gone.
pub open spec fn live_session(
    session: Session,
    host: Seq<char>,
    fresh: Set<Seq<char>>,
    observations: Map<Seq<char>, LiveObservation>,
) -> Session {
    if session.host@ != host || !fresh.contains(session.id@) {
        session
    } else if observations.dom().contains(session.id@) {
        let observation = observations[session.id@];
        Session {
            runtime: observation.runtime,
            tmux: observation.tmux,
            activity: merged_activity(session.activity, observation.activity),
            ..session
        }
    } else if !(session.runtime is Resumable) {
        Session {
            runtime: RuntimeOwner::Resumable,
            tmux: None,
            activity: if session.activity is Working {
                Activity::Completed
            } else {
                session.activity
            },
            ..session
        }
    } else {
        session
    }
}

/// The live state of a session changed.
pub open spec fn live_change(before: Session, after: Session) -> bool {
    before.activity != after.activity || before.runtime != after.runtime || !binding_eq(
        before.tmux,
        after.tmux,
    )
}

/// The sessions as observations leave them.
pub open spec fn live_sessions(
    sessions: Seq<Session>,
    host: Seq<char>,
    fresh: Set<Seq<char>>,
    observations: Map<Seq<char>, LiveObservation>,
) -> Seq<Session> {
    sessions.map_values(|session: Session| live_session(session, host, fresh, observations))
}

/// The sessions that observations changed, as they are after it.
pub open spec fn live_updates(
    sessions: Seq<Session>,
    host: Seq<char>,
    fresh: Set<Seq<char>>,
    observations: Map<Seq<char>, LiveObservation>,
) -> Seq<Session>
    decreases sessions.len(),
{
    if sessions.len() == 0 {
        Seq::empty()
    } else {
        let before = live_updates(sessions.drop_last(), host, fresh, observations);
        let after = live_session(sessions.last(), host, fresh, observations);
        if live_change(sessions.last(), after) {
            before.push(after)
        } else {
            before
        }
    }
}

impl PickerView {
    /// The state after transitions asked for attention.
    pub open spec fn with_transitions(
        self,
        transitions: Seq<SessionTransition>,
        now: u64,
    ) -> PickerView {
        if transitions.len() == 0 {
            self
        } else {
            PickerView {
                unread_ids: self.unread_ids.union(transition_ids(transitions)),
                effects: self.effects + transition_effects(transitions, self.watching),
                notice: Some((transition_notice(transitions), now)),
                ..self
            }
        }
    }

    /// The state after snapshots were recorded.
    pub open spec fn with_recorded(self, sessions: Seq<Session>, clock: Clock) -> PickerView {
        let now = stored_seconds(clock.unix_seconds);
        PickerView { store: recorded(self.store, sessions, now), ..self }.with_transitions(
            recorded_transitions(self.store, sessions, now),
            clock.monotonic_millis,
        )
    }

    /// The state after snapshots of this run were recorded.
    pub open spec fn with_fresh(self, sessions: Seq<Session>, clock: Clock) -> PickerView {
        PickerView { fresh_ids: self.fresh_ids.union(ids_of(sessions)), ..self }.with_recorded(
            sessions,
            clock,
        )
    }

    /// The state in which nothing of a host is of this run.
    pub open spec fn with_host_cached(self, target: Seq<char>) -> PickerView {
        let host = observed_host_text(target, self.local_hostname);
        PickerView {
            fresh_ids: self.fresh_ids.difference(ids_on(self.active, host)).difference(
                ids_on(self.settled, host),
            ),
            active: rested_on(self.active, host),
            settled: rested_on(self.settled, host),
            ..self
        }
    }

    /// A snapshot without a message keeps the one that is cached.
    pub open spec fn with_cached_message(self, session: Session) -> Session {
        if session.last_message@.len() > 0 {
            session
        } else {
            match self.session_with_id(session.id@) {
                Some(cached) => Session { last_message: cached.last_message, ..session },
                None => session,
            }
        }
    }

    /// A snapshot with details keeps the live state that was seen meanwhile.
    pub open spec fn with_live_state(self, session: Session) -> Session {
        match self.session_with_id(session.id@) {
            Some(current) => if current.runtime is Resumable {
                session
            } else {
                Session {
                    runtime: current.runtime,
                    tmux: current.tmux,
                    activity: current.activity,
                    ..session
                }
            },
            None => session,
        }
    }

    /// The state after the inventory was read from the store, where sessions without
    /// interaction settle.
    pub open spec fn reloaded(self, clock: Clock) -> PickerView {
        let now = stored_seconds(clock.unix_seconds);
        let store = settled(self.store, stale_cutoff(now, DEFAULT_STALE_AFTER_SECONDS), now);
        PickerView {
            store,
            active: rested_unless(loaded(store, false), self.fresh_ids),
            settled: rested_unless(loaded(store, true), self.fresh_ids),
            unread_ids: unread_ids(store).to_set(),
            ..self
        }
    }

    /// The state after an answer was taken in.
    pub open spec fn settled_down(self, selection: Option<SelectionView>, clock: Clock) ->
        PickerView {
        self.reloaded(clock).with_choices().rebuilt(
            selection,
            clock.unix_seconds,
        ).with_refresh_status()
    }

    /// The state after a host answered with its sessions.
    pub open spec fn host_answered(self, target: Seq<char>, sessions: Seq<Session>, clock: Clock) ->
        PickerView {
        let noted = PickerView {
            pending_hosts: self.pending_hosts.remove(target),
            initial_targets_remaining: self.initial_targets_remaining.remove(target),
            host_errors: self.host_errors.remove(target),
            reachable_hosts: self.reachable_hosts.insert(target),
            enriching_hosts: self.enriching_hosts.insert(target),
            last_activity_poll: self.last_activity_poll.remove(target),
            ..self
        };
        let known = noted.reconnect.dom().contains(target);
        let recovered = known && noted.reconnect[target].consecutive_failures > 0;
        let reconnected = if known {
            PickerView {
                reconnect: noted.reconnect.insert(
                    target,
                    reached(clock.monotonic_millis, noted.is_important(target)),
                ),
                ..noted
            }
        } else {
            noted
        };
        let cached = reconnected.with_host_cached(target);
        let complete = sessions.map_values(
            |session: Session| cached.with_cached_message(session),
        );
        let taken = cached.with_fresh(complete, clock);
        let host = observed_host_text(target, self.local_hostname);
        if recovered {
            PickerView {
                notice: Some(
                    (
                        host + " is back online · restored "@ + decimal(sessions.len())
                            + " sessions"@,
                        clock.monotonic_millis,
                    ),
                ),
                effects: taken.effects.push(
                    EffectView::NotifyRecovered {
                        host,
                        session_count: sessions.len() as usize,
                    },
                ),
                ..taken
            }
        } else {
            taken
        }
    }

    /// The state after the details of a host's sessions came.
    pub open spec fn details_came(self, target: Seq<char>, sessions: Seq<Session>, clock: Clock) ->
        PickerView {
        let noted = PickerView { enriching_hosts: self.enriching_hosts.remove(target), ..self };
        noted.with_fresh(
            sessions.map_values(|session: Session| noted.with_live_state(session)),
            clock,
        )
    }

    /// The state after a host failed, under the hash that picks the jitter.
    pub open spec fn host_failed(
        self,
        target: Seq<char>,
        error: String,
        hash: u64,
        clock: Clock,
    ) -> PickerView {
        let noted = PickerView {
            pending_hosts: self.pending_hosts.remove(target),
            initial_targets_remaining: self.initial_targets_remaining.remove(target),
            enriching_hosts: self.enriching_hosts.remove(target),
            reachable_hosts: self.reachable_hosts.remove(target),
            activity_pending: self.activity_pending.remove(target),
            ..self
        };
        let class = if is_blocking(error@) {
            FailureClass::Blocked
        } else {
            FailureClass::Transient
        };
        let waiting = if noted.reconnect.dom().contains(target) {
            PickerView {
                reconnect: noted.reconnect.insert(
                    target,
                    failed_state(
                        noted.reconnect[target],
                        clock.monotonic_millis,
                        noted.is_important(target),
                        class,
                        hash,
                    ),
                ),
                ..noted
            }
        } else {
            noted
        };
        let cached = waiting.with_host_cached(target);
        PickerView { host_errors: cached.host_errors.insert(target, error), ..cached }
    }

    /// The state after the processes of a host were looked at.
    pub open spec fn observed(
        self,
        target: Seq<char>,
        observations: Map<Seq<char>, LiveObservation>,
        clock: Clock,
    ) -> PickerView {
        let host = observed_host_text(target, self.local_hostname);
        let updates = live_updates(self.active, host, self.fresh_ids, observations)
            + live_updates(self.settled, host, self.fresh_ids, observations);
        let seen = PickerView {
            active: live_sessions(self.active, host, self.fresh_ids, observations),
            settled: live_sessions(self.settled, host, self.fresh_ids, observations),
            ..self
        };
        if updates.len() == 0 {
            seen
        } else {
            seen.with_recorded(updates, clock).rebuilt(self.selection(), clock.unix_seconds)
        }
    }

    /// The state after a pane was captured. An answer to another request is passed over.
    pub open spec fn captured(
        self,
        request_id: u64,
        session_id: Seq<char>,
        result: Result<String, String>,
    ) -> PickerView {
        match self.preview {
            None => self,
            Some(preview) => if preview.request_id != request_id || preview.session_id
                != session_id {
                self
            } else {
                let fallback = match self.session_with_id(session_id) {
                    Some(session) => cached_text(session, self.home),
                    None => "No cached response is available."@,
                };
                let content = match result {
                    Ok(body) => if trimmed(body@).len() > 0 {
                        ContentView::Ready { source: "live tmux pane"@, body: body@ }
                    } else {
                        ContentView::Ready { source: "cached response"@, body: fallback }
                    },
                    Err(error) => ContentView::Failed { error: error@, fallback },
                };
                PickerView {
                    preview: Some(PreviewView { content, scroll_from_bottom: 0, ..preview }),
                    ..self
                }
            },
        }
    }

    /// The hash that picks the jitter where a host is told to have failed.
    pub open spec fn hash_of(self, event: RefreshEvent) -> u64 {
        match event {
            RefreshEvent::Failed { target, .. } => if self.reconnect.contains_key(target@) {
                failure_hash(
                    target@,
                    one_more(self.reconnect[target@].consecutive_failures),
                    self.reconnect_jitter_seed,
                )
            } else {
                0
            },
            _ => 0,
        }
    }

    /// The state after something came back from outside, under the hash that picks the
    /// jitter of a failure. What answers an earlier refresh is passed over.
    pub open spec fn applied(self, event: RefreshEvent, hash: u64, clock: Clock) -> PickerView {
        let selection = self.selection();
        match event {
            RefreshEvent::Basic { generation, target, sessions } => if generation
                == self.refresh_generation {
                self.host_answered(target@, sessions@, clock).settled_down(selection, clock)
            } else {
                self
            },
            RefreshEvent::Detailed { generation, target, sessions } => if generation
                == self.refresh_generation {
                self.details_came(target@, sessions@, clock).settled_down(selection, clock)
            } else {
                self
            },
            RefreshEvent::Failed { generation, target, error } => if generation
                == self.refresh_generation {
                self.host_failed(target@, error, hash, clock).settled_down(selection, clock)
            } else {
                self
            },
            RefreshEvent::DetailFailed { generation, target } => if generation
                == self.refresh_generation {
                PickerView {
                    enriching_hosts: self.enriching_hosts.remove(target@),
                    ..self
                }.settled_down(selection, clock)
            } else {
                self
            },
            RefreshEvent::Activity { generation, target, observations } => if generation
                == self.refresh_generation {
                let noted = PickerView {
                    activity_pending: self.activity_pending.remove(target@),
                    ..self
                };
                match observations {
                    Ok(observations) => noted.observed(target@, observations@, clock),
                    Err(_) => noted,
                }
            } else {
                self
            },
            RefreshEvent::Preview { request_id, session_id, result } => self.captured(
                request_id,
                session_id@,
                result,
            ),
        }
    }
}

fn observe_sessions(
    sessions: &mut Vec<Session>,
    host: &str,
    fresh: &StringSet,
    observations: &StringMap<LiveObservation>,
) -> (r: Vec<Session>)
    ensures
        final(sessions)@ == live_sessions(old(sessions)@, host@, fresh@, observations@),
        r@ == live_updates(old(sessions)@, host@, fresh@, observations@),
{
    let ghost before = sessions@;
    let ghost after = live_sessions(before, host@, fresh@, observations@);
    let mut updates: Vec<Session> = Vec::new();
    let mut i: usize = 0;
    assert(before.take(0) =~= Seq::<Session>::empty());
    while i < sessions.len()
        invariant
            i <= before.len(),
            sessions@.len() == before.len(),
            after == live_sessions(before, host@, fresh@, observations@),
            forall|j: int| i <= j < before.len() ==> sessions@[j] == before[j],
            forall|j: int| 0 <= j < i ==> #[trigger] sessions@[j] == after[j],
            updates@ == live_updates(before.take(i as int), host@, fresh@, observations@),
        decreases before.len() - i,
    {
        let mut session: Session = sessions[i].clone();
        let ghost first = session;
        proof {
            assert(before.take(i + 1).drop_last() =~= before.take(i as int));
            assert(before.take(i + 1).last() == first);
            assert(after[i as int] == live_session(first, host@, fresh@, observations@));
        }
        if same(session.host.as_str(), host) && fresh.contains(session.id.as_str()) {
            match observations.get(session.id.as_str()) {
                Some(observation) => {
                    session.runtime = observation.runtime;
                    session.tmux = clone_binding(&observation.tmux);
                    session.activity = merge_observed_activity(
                        session.activity,
                        observation.activity,
                    );
                },
                None => {
                    if session.runtime != RuntimeOwner::Resumable {
                        session.runtime = RuntimeOwner::Resumable;
                        session.tmux = None;
                        if session.activity == Activity::Working {
                            session.activity = Activity::Completed;
                        }
                    }
                },
            }
        }
        assert(session == after[i as int]);
        let current: &Session = &sessions[i];
        let changed: bool = current.activity != session.activity || current.runtime
            != session.runtime || !same_binding(&current.tmux, &session.tmux);
        if changed {
            updates.push(session.clone());
        }
        sessions.set(i, session);
        i += 1;
    }
    proof {
        assert(before.take(i as int) =~= before);
        assert(sessions@ =~= after);
    }
    updates
}

impl PickerApp {
    fn push_effect(&mut self, effect: Effect)
        ensures
            final(self)@ == (PickerView {
                effects: old(self)@.effects.push(effect@),
                ..old(self)@
            }),
    {
        proof {
            lemma_effects_push(self.effects@, effect);
        }
        self.effects.push(effect);
    }

    /// Tells the user of transitions, and whoever watches, and marks their sessions unread.
    pub fn handle_transitions(&mut self, transitions: &Vec<SessionTransition>, clock: Clock)
        ensures
            final(self)@ == old(self)@.with_transitions(transitions@, clock.monotonic_millis),
    {
        if transitions.len() == 0 {
            return;
        }
        let ghost v = self@;
        let ghost ids = transitions@.map_values(|t: SessionTransition| t.session_id@);
        let mut i: usize = 0;
        proof {
            assert(transitions@.take(0) =~= Seq::<SessionTransition>::empty());
            assert(ids.take(0).to_set() =~= Set::<Seq<char>>::empty());
            assert(v.unread_ids.union(ids.take(0).to_set()) =~= v.unread_ids);
            assert(v.effects + Seq::<EffectView>::empty() =~= v.effects);
        }
        while i < transitions.len()
            invariant
                i <= transitions@.len(),
                ids == transitions@.map_values(|t: SessionTransition| t.session_id@),
                self@ == (PickerView {
                    unread_ids: v.unread_ids.union(ids.take(i as int).to_set()),
                    effects: v.effects + transition_effects(
                        transitions@.take(i as int),
                        v.watching,
                    ),
                    ..v
                }),
            decreases transitions@.len() - i,
        {
            let transition: &SessionTransition = &transitions[i];
            let ghost earlier = transition_effects(transitions@.take(i as int), v.watching);
            let ghost told = EffectView::NotifyTransition(*transition);
            let ghost emitted = EffectView::EmitTransition(*transition);
            proof {
                assert(transitions@.take(i + 1).drop_last() =~= transitions@.take(i as int));
                assert(transitions@.take(i + 1).last() == *transition);
                lemma_take_set(ids, i as int);
                assert(v.unread_ids.union(ids.take(i + 1).to_set()) =~= v.unread_ids.union(
                    ids.take(i as int).to_set(),
                ).insert(ids[i as int]));
                assert((v.effects + earlier).push(told) =~= v.effects + earlier.push(told));
                assert((v.effects + earlier.push(told)).push(emitted) =~= v.effects + earlier.push(
                    told,
                ).push(emitted));
            }
            self.unread_ids.insert(transition.session_id.clone());
            self.push_effect(Effect::NotifyTransition(transition.clone()));
            if self.watching {
                self.push_effect(Effect::EmitTransition(transition.clone()));
            }
            i += 1;
        }
        proof {
            assert(transitions@.take(i as int) =~= transitions@);
            assert(ids.take(i as int) =~= ids);
        }
        let text: String = if transitions.len() == 1 {
            let transition: &SessionTransition = &transitions[0];
            let mut text: String = transition.kind.as_str().to_owned();
            text.append(" · ");
            text.append(transition.title.as_str());
            text.append(" on ");
            text.append(transition.host.as_str());
            text
        } else {
            let mut text: String = decimal_of(transitions.len() as u64);
            text.append(" sessions need attention");
            text
        };
        self.notice = Some((text, clock.monotonic_millis));
    }

    fn record_sessions(&mut self, sessions: &Vec<Session>, clock: Clock)
        ensures
            final(self)@ == old(self)@.with_recorded(sessions@, clock),
    {
        let now: i64 = to_stored_seconds(clock.unix_seconds);
        let transitions: Vec<SessionTransition> = self.store.record(sessions, now);
        self.handle_transitions(&transitions, clock);
    }

    fn record_fresh_sessions(&mut self, sessions: &Vec<Session>, clock: Clock)
        ensures
            final(self)@ == old(self)@.with_fresh(sessions@, clock),
    {
        add_ids(&mut self.fresh_ids, sessions);
        self.record_sessions(sessions, clock);
    }

    fn find_session(&self, id: &str) -> (r: Option<&Session>)
        ensures
            r is Some <==> self@.session_with_id(id@) is Some,
            r matches Some(session) ==> self@.session_with_id(id@) == Some(*session),
    {
        match find_by_id(&self.active, id) {
            Some(session) => Some(session),
            None => find_by_id(&self.settled, id),
        }
    }

    fn preserve_cached_messages(&self, sessions: &mut Vec<Session>)
        ensures
            final(sessions)@ == old(sessions)@.map_values(
                |session: Session| self@.with_cached_message(session),
            ),
    {
        let ghost before = sessions@;
        let ghost v = self@;
        let ghost after = before.map_values(|session: Session| v.with_cached_message(session));
        let mut i: usize = 0;
        while i < sessions.len()
            invariant
                v == self@,
                i <= before.len(),
                sessions@.len() == before.len(),
                after == before.map_values(|session: Session| v.with_cached_message(session)),
                forall|j: int| i <= j < before.len() ==> sessions@[j] == before[j],
                forall|j: int| 0 <= j < i ==> #[trigger] sessions@[j] == after[j],
            decreases before.len() - i,
        {
            assert(after[i as int] == v.with_cached_message(before[i as int]));
            if sessions[i].last_message.as_str().is_empty() {
                if let Some(cached) = self.find_session(sessions[i].id.as_str()) {
                    let mut session: Session = sessions[i].clone();
                    session.last_message = cached.last_message.clone();
                    sessions.set(i, session);
                }
            }
            i += 1;
        }
        assert(sessions@ =~= after);
    }

    fn preserve_live_state(&self, sessions: &mut Vec<Session>)
        ensures
            final(sessions)@ == old(sessions)@.map_values(
                |session: Session| self@.with_live_state(session),
            ),
    {
        let ghost before = sessions@;
        let ghost v = self@;
        let ghost after = before.map_values(|session: Session| v.with_live_state(session));
        let mut i: usize = 0;
        while i < sessions.len()
            invariant
                v == self@,
                i <= before.len(),
                sessions@.len() == before.len(),
                after == before.map_values(|session: Session| v.with_live_state(session)),
                forall|j: int| i <= j < before.len() ==> sessions@[j] == before[j],
                forall|j: int| 0 <= j < i ==> #[trigger] sessions@[j] == after[j],
            decreases before.len() - i,
        {
            assert(after[i as int] == v.with_live_state(before[i as int]));
            if let Some(current) = self.find_session(sessions[i].id.as_str()) {
                if current.runtime != RuntimeOwner::Resumable {
                    let mut session: Session = sessions[i].clone();
                    session.runtime = current.runtime;
                    session.tmux = clone_binding(&current.tmux);
                    session.activity = current.activity;
                    sessions.set(i, session);
                }
            }
            i += 1;
        }
        assert(sessions@ =~= after);
    }

    fn mark_host_cached(&mut self, target: &str)
        ensures
            final(self)@ == old(self)@.with_host_cached(target@),
    {
        let host: String = observed_host(target, self.local_hostname.as_str());
        forget_ids_on(&mut self.fresh_ids, &self.active, host.as_str());
        forget_ids_on(&mut self.fresh_ids, &self.settled, host.as_str());
        rest_sessions_on(&mut self.active, host.as_str());
        rest_sessions_on(&mut self.settled, host.as_str());
    }

    /// Reads the inventory from the store.
    pub fn reload_snapshots(&mut self, clock: Clock)
        ensures
            final(self)@ == old(self)@.reloaded(clock),
    {
        let now: i64 = to_stored_seconds(clock.unix_seconds);
        self.store.auto_settle_stale_at(now, DEFAULT_STALE_AFTER_SECONDS);
        let mut active: Vec<Session> = self.store.load(false);
        let mut archive: Vec<Session> = self.store.load(true);
        let unread: Vec<String> = self.store.unread_session_ids();
        rest_sessions_unless(&mut active, &self.fresh_ids);
        rest_sessions_unless(&mut archive, &self.fresh_ids);
        self.active = active;
        self.settled = archive;
        self.unread_ids = string_set(&unread);
    }

    fn settle_down(&mut self, selection: Option<DashboardSelection>, clock: Clock)
        ensures
            final(self)@ == old(self)@.settled_down(selection_view(selection), clock),
            final(self)@.wf(),
    {
        self.reload_snapshots(clock);
        self.rebuild_host_choices();
        self.rebuild_rows_selecting(selection, clock.unix_seconds);
        self.update_refresh_status();
    }
}

pub(crate) fn string_set(names: &Vec<String>) -> (r: StringSet)
    ensures
        r@ == texts(names@).to_set(),
{
    let ghost views = texts(names@);
    let mut r: StringSet = StringSet::new();
    let mut i: usize = 0;
    assert(views.take(0).to_set() =~= Set::<Seq<char>>::empty());
    while i < names.len()
        invariant
            i <= names@.len(),
            views == texts(names@),
            r@ == views.take(i as int).to_set(),
        decreases names@.len() - i,
    {
        proof {
            lemma_take_set(views, i as int);
        }
        r.insert(names[i].clone());
        i += 1;
    }
    assert(views.take(i as int) =~= views);
    r
}

impl PickerApp {
    fn host_answered(&mut self, target: &str, sessions: Vec<Session>, clock: Clock)
        requires
            old(self)@.wf(),
            within_clock(clock.monotonic_millis),
        ensures
            final(self)@ == old(self)@.host_answered(target@, sessions@, clock),
    {
        let now: u64 = clock.monotonic_millis;
        let count: usize = sessions.len();
        self.pending_hosts.remove(target);
        self.initial_targets_remaining.remove(target);
        self.host_errors.remove(target);
        self.reachable_hosts.insert(target.to_owned());
        self.enriching_hosts.insert(target.to_owned());
        self.last_activity_poll.remove(target);
        let important: bool = self.is_important_target(target);
        let known: Option<HostReconnectState> = match self.reconnect.get(target) {
            Some(state) => Some(*state),
            None => None,
        };
        let recovered: bool = match known {
            Some(state) => {
                let mut state: HostReconnectState = state;
                let recovered: bool = state.succeeded(now, important);
                self.reconnect.insert(target.to_owned(), state);
                recovered
            },
            None => false,
        };
        self.mark_host_cached(target);
        let mut sessions: Vec<Session> = sessions;
        self.preserve_cached_messages(&mut sessions);
        self.record_fresh_sessions(&sessions, clock);
        if recovered {
            let host: String = observed_host(target, self.local_hostname.as_str());
            let mut text: String = host.clone();
            text.append(" is back online · restored ");
            text.append(decimal_of(count as u64).as_str());
            text.append(" sessions");
            self.notice = Some((text, now));
            self.push_effect(Effect::NotifyRecovered { host, session_count: count });
        }
    }

    fn details_came(&mut self, target: &str, sessions: Vec<Session>, clock: Clock)
        ensures
            final(self)@ == old(self)@.details_came(target@, sessions@, clock),
    {
        self.enriching_hosts.remove(target);
        let mut sessions: Vec<Session> = sessions;
        self.preserve_live_state(&mut sessions);
        self.record_fresh_sessions(&sessions, clock);
    }

    fn host_failed(&mut self, target: String, error: String, hash: u64, clock: Clock)
        requires
            old(self)@.wf(),
            within_clock(clock.monotonic_millis),
        ensures
            final(self)@ == old(self)@.host_failed(target@, error, hash, clock),
    {
        let name: &str = target.as_str();
        self.pending_hosts.remove(name);
        self.initial_targets_remaining.remove(name);
        self.enriching_hosts.remove(name);
        self.reachable_hosts.remove(name);
        self.activity_pending.remove(name);
        let important: bool = self.is_important_target(name);
        let class: FailureClass = classify_failure(error.as_str());
        let known: Option<HostReconnectState> = match self.reconnect.get(name) {
            Some(state) => Some(*state),
            None => None,
        };
        if let Some(state) = known {
            let mut state: HostReconnectState = state;
            state.failed_with_hash(clock.monotonic_millis, important, class, hash);
            self.reconnect.insert(name.to_owned(), state);
        }
        self.mark_host_cached(name);
        self.host_errors.insert(target, error);
    }

    /// Takes in what a look at the processes of a host told.
    pub fn apply_live_observations(
        &mut self,
        target: &str,
        observations: &StringMap<LiveObservation>,
        clock: Clock,
    )
        requires
            old(self)@.wf(),
        ensures
            final(self)@ == old(self)@.observed(target@, observations@, clock),
            final(self)@.wf(),
    {
        let selection: Option<DashboardSelection> = self.selected_selection();
        let host: String = observed_host(target, self.local_hostname.as_str());
        let mut updates: Vec<Session> = observe_sessions(
            &mut self.active,
            host.as_str(),
            &self.fresh_ids,
            observations,
        );
        let mut more: Vec<Session> = observe_sessions(
            &mut self.settled,
            host.as_str(),
            &self.fresh_ids,
            observations,
        );
        updates.append(&mut more);
        if updates.len() > 0 {
            self.record_sessions(&updates, clock);
            self.rebuild_rows_selecting(selection, clock.unix_seconds);
        }
    }

    fn capture_came(&mut self, request_id: u64, session_id: String, result: Result<String, String>)
        requires
            old(self)@.wf(),
        ensures
            final(self)@ == old(self)@.captured(request_id, session_id@, result),
            final(self)@.wf(),
    {
        let wanted: bool = match &self.preview {
            Some(preview) => preview.request_id == request_id && same(
                preview.session_id.as_str(),
                session_id.as_str(),
            ),
            None => false,
        };
        if !wanted {
            return;
        }
        let fallback: String = match self.find_session(session_id.as_str()) {
            Some(session) => cached_preview(session, &self.home),
            None => "No cached response is available.".to_owned(),
        };
        let content: PreviewContent = match result {
            Ok(body) => if trim(body.as_str()).as_str().is_empty() {
                PreviewContent::Ready { source: "cached response", body: fallback }
            } else {
                PreviewContent::Ready { source: "live tmux pane", body }
            },
            Err(error) => PreviewContent::Failed { error, fallback },
        };
        if let Some(preview) = &mut self.preview {
            preview.content = content;
            preview.scroll_from_bottom = 0;
        }
    }

    /// Takes in what came back from outside, under the given hash.
    pub fn apply_refresh_event_with(&mut self, event: RefreshEvent, hash: u64, clock: Clock)
        requires
            old(self)@.wf(),
            within_clock(clock.monotonic_millis),
        ensures
            final(self)@ == old(self)@.applied(event, hash, clock),
            final(self)@.wf(),
    {
        let selection: Option<DashboardSelection> = self.selected_selection();
        match event {
            RefreshEvent::Basic { generation, target, sessions } => {
                if generation == self.refresh_generation {
                    self.host_answered(target.as_str(), sessions, clock);
                    self.settle_down(selection, clock);
                }
            },
            RefreshEvent::Detailed { generation, target, sessions } => {
                if generation == self.refresh_generation {
                    self.details_came(target.as_str(), sessions, clock);
                    self.settle_down(selection, clock);
                }
            },
            RefreshEvent::Failed { generation, target, error } => {
                if generation == self.refresh_generation {
                    self.host_failed(target, error, hash, clock);
                    self.settle_down(selection, clock);
                }
            },
            RefreshEvent::DetailFailed { generation, target } => {
                if generation == self.refresh_generation {
                    self.enriching_hosts.remove(target.as_str());
                    self.settle_down(selection, clock);
                }
            },
            RefreshEvent::Activity { generation, target, observations } => {
                if generation == self.refresh_generation {
                    self.activity_pending.remove(target.as_str());
                    if let Ok(observations) = observations {
                        self.apply_live_observations(target.as_str(), &observations, clock);
                    }
                }
            },
            RefreshEvent::Preview { request_id, session_id, result } => {
                self.capture_came(request_id, session_id, result);
            },
        }
    }

    fn jitter_of(&self, event: &RefreshEvent) -> (r: u64)
        ensures
            r == self@.hash_of(*event),
    {
        match event {
            RefreshEvent::Failed { target, .. } => match self.reconnect.get(target.as_str()) {
                Some(state) => jitter_hash(
                    target.as_str(),
                    state.consecutive_failures.saturating_add(1),
                    self.reconnect_jitter_seed,
                ),
                None => 0,
            },
            _ => 0,
        }
    }

    /// Takes in what came back from outside. The hash of a failure picks its jitter.
    #[verifier::spinoff_prover]
    pub fn apply_refresh_event(&mut self, event: RefreshEvent, clock: Clock)
        requires
            old(self)@.wf(),
            within_clock(clock.monotonic_millis),
        ensures
            final(self)@ == old(self)@.applied(event, old(self)@.hash_of(event), clock),
            final(self)@.wf(),
    {
        let hash: u64 = self.jitter_of(&event);
        self.apply_refresh_event_with(event, hash, clock);
    }
}

// ---- what the user asks for ----

impl PickerView {
    /// The title of a session, or its identifier.
    pub open spec fn title_of(self, id: Seq<char>) -> Seq<char> {
        match self.session_with_id(id) {
            Some(session) => session.title@,
            None => id,
        }
    }

    /// The state after a session's attention was marked read.
    pub open spec fn acknowledged(
        self,
        id: Seq<char>,
        show_status: bool,
        clock: Clock,
    ) -> PickerView {
        let was_unread = unread_ids(self.store).contains(id);
        let marked = PickerView {
            store: with_row(self.store, id, |row: StoredSession| acknowledged_row(row)),
            unread_ids: self.unread_ids.remove(id),
            ..self
        }.rebuilt(Some(SelectionView::Session(id)), clock.unix_seconds);
        let message = if was_unread {
            "Marked "@ + self.title_of(id) + " read."@
        } else {
            self.title_of(id) + " was already read."@
        };
        if !show_status {
            marked
        } else {
            match marked.preview {
                Some(preview) => PickerView {
                    preview: Some(PreviewView { notice: Some(message), ..preview }),
                    ..marked
                },
                None => PickerView {
                    notice: Some((message, clock.monotonic_millis)),
                    ..marked
                },
            }
        }
    }

    /// The state after a session was settled or restored on the user's behalf.
    pub open spec fn with_archived(self, id: Seq<char>, archived: bool, clock: Clock) ->
        PickerView {
        let now = stored_seconds(clock.unix_seconds);
        let changed = PickerView {
            store: with_row(
                self.store,
                id,
                |row: StoredSession| archived_row(row, archived, now),
            ),
            ..self
        }.reloaded(clock).rebuilt(self.selection(), clock.unix_seconds);
        PickerView {
            notice: Some(
                (
                    (if archived {
                        "Settled "@
                    } else {
                        "Restored "@
                    }) + self.title_of(id) + "."@,
                    clock.monotonic_millis,
                ),
            ),
            ..changed
        }
    }
}

impl PickerApp {
    fn session_title(&self, id: &str) -> (r: String)
        ensures
            r@ == self@.title_of(id@),
    {
        match self.find_session(id) {
            Some(session) => session.title.clone(),
            None => id.to_owned(),
        }
    }

    /// Marks a session's attention read.
    pub fn acknowledge_session(&mut self, session_id: &str, show_status: bool, clock: Clock)
        requires
            old(self)@.wf(),
        ensures
            final(self)@ == old(self)@.acknowledged(session_id@, show_status, clock),
            final(self)@.wf(),
    {
        let title: String = self.session_title(session_id);
        let changed: bool = self.store.acknowledge(session_id);
        self.unread_ids.remove(session_id);
        self.rebuild_rows_selecting(
            Some(DashboardSelection::Session(session_id.to_owned())),
            clock.unix_seconds,
        );
        if show_status {
            let message: String = if changed {
                let mut message: String = "Marked ".to_owned();
                message.append(title.as_str());
                message.append(" read.");
                message
            } else {
                let mut message: String = title;
                message.append(" was already read.");
                message
            };
            match &mut self.preview {
                Some(preview) => {
                    preview.notice = Some(message);
                },
                None => {
                    self.notice = Some((message, clock.monotonic_millis));
                },
            }
        }
    }

    /// Settles or restores a session on the user's behalf.
    pub fn set_archived(&mut self, session_id: &str, archived: bool, clock: Clock) -> (r: Result<
        (),
        StoreError,
    >)
        requires
            old(self)@.wf(),
        ensures
            final(self)@.wf(),
            r is Ok <==> has_row(old(self)@.store, session_id@),
            r matches Err(error) ==> error == StoreError::UnknownSession,
            final(self)@ == (if r is Ok {
                old(self)@.with_archived(session_id@, archived, clock)
            } else {
                old(self)@
            }),
    {
        let selection: Option<DashboardSelection> = self.selected_selection();
        let title: String = self.session_title(session_id);
        let now: i64 = to_stored_seconds(clock.unix_seconds);
        let ghost before = self.store@;
        match self.store.set_archived(session_id, archived, now) {
            Ok(()) => {},
            Err(error) => {
                proof {
                    let change = |row: StoredSession| archived_row(row, archived, now);
                    let after = with_row(before, session_id@, change);
                    assert forall|i: int| 0 <= i < before.len() implies after[i] == before[i] by {
                        assert(crate::store::row_ids(before)[i] == before[i].session_id@);
                        assert(crate::store::row_ids(before).contains(before[i].session_id@));
                    }
                    assert(after =~= before);
                }
                return Err(error);
            },
        }
        self.reload_snapshots(clock);
        self.rebuild_rows_selecting(selection, clock.unix_seconds);
        let mut text: String = if archived { "Settled ".to_owned() } else { "Restored ".to_owned() };
        text.append(title.as_str());
        text.append(".");
        self.notice = Some((text, clock.monotonic_millis));
        Ok(())
    }

    /// Takes a notice away that was shown long enough.
    pub fn expire_notice(&mut self, clock: Clock)
        requires
            old(self)@.wf(),
        ensures
            final(self)@.wf(),
            final(self)@ == old(self)@.with_notice_expired(clock.monotonic_millis),
    {
        let expired: bool = match &self.notice {
            Some((_text, shown_at)) => clock.monotonic_millis >= *shown_at
                && clock.monotonic_millis - *shown_at >= NOTICE_DURATION,
            None => false,
        };
        if expired {
            self.notice = None;
        }
    }

    /// Whether every host was asked once and nothing is outstanding.
    pub fn initial_refresh_complete(&self) -> (r: bool)
        ensures
            r == self@.is_reconciled(),
    {
        self.initial_targets_remaining.is_empty() && self.pending_hosts.is_empty()
            && self.enriching_hosts.is_empty() && self.activity_pending.is_empty()
    }

    /// What is to be done outside, which is then no longer asked for.
    pub fn take_effects(&mut self) -> (r: Vec<Effect>)
        requires
            old(self)@.wf(),
        ensures
            final(self)@.wf(),
            effect_views(r@) == old(self)@.effects,
            final(self)@ == (PickerView { effects: Seq::empty(), ..old(self)@ }),
    {
        let mut r: Vec<Effect> = Vec::new();
        r.append(&mut self.effects);
        assert(effect_views(self.effects@) =~= Seq::<EffectView>::empty());
        r
    }
}

// ---- laws ----

/// What answers an earlier refresh changes nothing.
pub proof fn late_answers_change_nothing(
    v: PickerView,
    event: RefreshEvent,
    hash: u64,
    clock: Clock,
)
    requires
        match event {
            RefreshEvent::Basic { generation, .. } => generation != v.refresh_generation,
            RefreshEvent::Detailed { generation, .. } => generation != v.refresh_generation,
            RefreshEvent::Failed { generation, .. } => generation != v.refresh_generation,
            RefreshEvent::DetailFailed { generation, .. } => generation != v.refresh_generation,
            RefreshEvent::Activity { generation, .. } => generation != v.refresh_generation,
            RefreshEvent::Preview { request_id, session_id, .. } => match v.preview {
                Some(preview) => preview.request_id != request_id || preview.session_id
                    != session_id@,
                None => true,
            },
        },
    ensures
        v.applied(event, hash, clock) == v,
{
}

proof fn lemma_asking_all(v: PickerView, targets: Seq<Seq<char>>)
    requires
        v.pending_hosts.finite(),
    ensures
        v.asking_all(targets).pending_hosts.finite(),
        v.asking_all(targets).pending_hosts.len() <= v.pending_hosts.len() + targets.len(),
        v.asking_all(targets).store == v.store,
        v.asking_all(targets).active == v.active,
        v.asking_all(targets).settled == v.settled,
    decreases targets.len(),
{
    if targets.len() > 0 {
        lemma_asking_all(v, targets.drop_last());
    }
}

/// No more hosts are asked at a time than can be.
pub proof fn few_hosts_are_asked_at_a_time(v: PickerView, now: u64)
    requires
        v.pending_hosts.finite(),
        v.pending_hosts.len() <= MAX_CONCURRENT_HOST_REFRESHES,
    ensures
        v.with_due_hosts_asked(now).pending_hosts.len() <= MAX_CONCURRENT_HOST_REFRESHES,
{
    if v.capacity() > 0 {
        let due = v.due_targets(now);
        let chosen = if due.len() < v.capacity() { due } else { due.take(v.capacity() as int) };
        lemma_asking_all(v, chosen);
    }
}

/// A host that is being asked, or that waits for its time, is not asked again.
pub proof fn only_due_hosts_are_asked(v: PickerView, now: u64, target: Seq<char>)
    requires
        v.due_targets(now).contains(target),
    ensures
        v.is_due(target, now),
        v.discovery_targets.contains(target),
{
    let keep = |target: Seq<char>| v.is_due(target, now);
    let wrap = |target: Seq<char>| (v.is_important(target), target);
    let places = v.discovery_targets.filter(keep).map_values(wrap);
    let order = ranked_by(places, asking_order());
    let k = choose|k: int| 0 <= k < v.due_targets(now).len() && v.due_targets(now)[k] == target;
    assert(target_at(order[k]) == target);
    lemma_ranked_by_contains(places, asking_order(), k);
    let m = choose|m: int| 0 <= m < places.len() && places[m] == order[k];
    assert(v.discovery_targets.filter(keep)[m] == target);
    assert(v.discovery_targets.filter(keep).contains(target));
    v.discovery_targets.lemma_filter_contains_rev(keep, target);
    v.discovery_targets.lemma_filter_pred(keep, m);
}

proof fn lemma_placed_by_contains<A>(s: Seq<A>, x: A, at_most: spec_fn(A, A) -> bool, k: int)
    requires
        0 <= k < crate::order::placed_by(s, x, at_most).len(),
    ensures
        crate::order::placed_by(s, x, at_most)[k] == x || s.contains(
            crate::order::placed_by(s, x, at_most)[k],
        ),
    decreases s.len(),
{
    let r = crate::order::placed_by(s, x, at_most);
    if s.len() == 0 || at_most(s.last(), x) {
        if k < s.len() {
            assert(r[k] == s[k]);
        }
    } else {
        let inner = crate::order::placed_by(s.drop_last(), x, at_most);
        if k < inner.len() {
            lemma_placed_by_contains(s.drop_last(), x, at_most, k);
            if inner[k] != x {
                let j = choose|j: int|
                    0 <= j < s.drop_last().len() && s.drop_last()[j] == inner[k];
                assert(s[j] == inner[k]);
            }
        } else {
            assert(s[s.len() - 1] == r[k]);
        }
    }
}

proof fn lemma_ranked_by_contains<A>(s: Seq<A>, at_most: spec_fn(A, A) -> bool, k: int)
    requires
        0 <= k < ranked_by(s, at_most).len(),
    ensures
        s.contains(ranked_by(s, at_most)[k]),
    decreases s.len(),
{
    if s.len() > 0 {
        let inner = ranked_by(s.drop_last(), at_most);
        let x = ranked_by(s, at_most)[k];
        lemma_placed_by_contains(inner, s.last(), at_most, k);
        assert(s[s.len() - 1] == s.last());
        if x != s.last() {
            let j = choose|j: int| 0 <= j < inner.len() && inner[j] == x;
            lemma_ranked_by_contains(s.drop_last(), at_most, j);
            let m = choose|m: int| 0 <= m < s.drop_last().len() && s.drop_last()[m] == x;
            assert(s[m] == x);
        }
    }
}

/// A host that fails loses none of its sessions: they stay in the store and in the inventory,
/// at rest, and none of them counts as seen in this run.
pub proof fn a_failed_host_keeps_its_sessions(
    v: PickerView,
    target: Seq<char>,
    error: String,
    hash: u64,
    clock: Clock,
    i: int,
)
    requires
        0 <= i < v.active.len(),
    ensures
        ({
            let after = v.host_failed(target, error, hash, clock);
            let host = observed_host_text(target, v.local_hostname);
            &&& after.store == v.store
            &&& after.active.len() == v.active.len()
            &&& after.settled.len() == v.settled.len()
            &&& after.active[i].id == v.active[i].id
            &&& v.active[i].host@ != host ==> after.active[i] == v.active[i]
            &&& v.active[i].host@ == host ==> after.active[i] == at_rest(v.active[i])
                && !after.fresh_ids.contains(v.active[i].id@)
        }),
{
    let host = observed_host_text(target, v.local_hostname);
    if v.active[i].host@ == host {
        assert(ids_on(v.active, host).contains(v.active[i].id@));
    }
}

/// Whoever watches hears of exactly the transitions that the user is told of, and in that
/// order; without a watcher the same transitions are told.
pub proof fn watchers_hear_what_the_user_is_told(transitions: Seq<SessionTransition>, k: int)
    requires
        0 <= k < transitions.len(),
    ensures
        transition_effects(transitions, false).len() == transitions.len(),
        transition_effects(transitions, false)[k] == EffectView::NotifyTransition(transitions[k]),
        transition_effects(transitions, true).len() == 2 * transitions.len(),
        transition_effects(transitions, true)[2 * k] == EffectView::NotifyTransition(
            transitions[k],
        ),
        transition_effects(transitions, true)[2 * k + 1] == EffectView::EmitTransition(
            transitions[k],
        ),
    decreases transitions.len(),
{
    lemma_effect_count(transitions.drop_last());
    if k < transitions.len() - 1 {
        watchers_hear_what_the_user_is_told(transitions.drop_last(), k);
    }
}

proof fn lemma_effect_count(transitions: Seq<SessionTransition>)
    ensures
        transition_effects(transitions, false).len() == transitions.len(),
        transition_effects(transitions, true).len() == 2 * transitions.len(),
    decreases transitions.len(),
{
    if transitions.len() > 0 {
        lemma_effect_count(transitions.drop_last());
    }
}

/// Taking in an answer leaves what was said to the user in place, and shows what the store
/// holds.
pub proof fn answers_keep_the_notice(v: PickerView, selection: Option<SelectionView>, clock: Clock)
    ensures
        v.settled_down(selection, clock).notice == v.notice,
        v.settled_down(selection, clock).preview == v.preview,
        v.settled_down(selection, clock).query == v.query,
        v.settled_down(selection, clock).collapsed_groups == v.collapsed_groups,
{
}

/// A session that was marked read is no longer unread, and marking it again changes nothing
/// in the store.
pub proof fn a_read_session_stays_read(v: PickerView, id: Seq<char>, clock: Clock)
    ensures
        !v.acknowledged(id, false, clock).unread_ids.contains(id),
        v.acknowledged(id, false, clock).acknowledged(id, false, clock).store == v.acknowledged(
            id,
            false,
            clock,
        ).store,
{
    let change = |row: StoredSession| acknowledged_row(row);
    let once = with_row(v.store, id, change);
    let after = v.acknowledged(id, false, clock);
    assert(after.store == once);
    assert(with_row(once, id, change) =~= once);
}

/// A process that is gone leaves its session resumable, and one that worked has completed.
pub proof fn a_vanished_process_leaves_a_resumable_session(
    session: Session,
    host: Seq<char>,
    fresh: Set<Seq<char>>,
    observations: Map<Seq<char>, LiveObservation>,
)
    requires
        session.host@ == host,
        fresh.contains(session.id@),
        !observations.dom().contains(session.id@),
    ensures
        ({
            let after = live_session(session, host, fresh, observations);
            &&& after.runtime is Resumable
            &&& !(session.runtime is Resumable) ==> after.tmux is None && !(after.activity
                is Working)
            &&& after.id == session.id
        }),
{
}

/// A session that no probe has confirmed is shown from the cache: it can be opened again, but
/// has no live binding.
pub proof fn cached_sessions_have_no_live_binding(v: PickerView, clock: Clock, i: int)
    ensures
        0 <= i < v.reloaded(clock).active.len() && !v.fresh_ids.contains(
            v.reloaded(clock).active[i].id@,
        ) ==> v.reloaded(clock).active[i].runtime is Resumable && v.reloaded(
            clock,
        ).active[i].tmux is None,
        0 <= i < v.reloaded(clock).settled.len() && !v.fresh_ids.contains(
            v.reloaded(clock).settled[i].id@,
        ) ==> v.reloaded(clock).settled[i].runtime is Resumable && v.reloaded(
            clock,
        ).settled[i].tmux is None,
{
}

/// A capture that failed keeps the cached response and tells the error beside it, and nothing
/// but the preview changes.
pub proof fn a_failed_capture_keeps_the_cached_response(
    v: PickerView,
    session: Session,
    error: String,
)
    requires
        v.preview is Some,
        v.session_with_id(v.preview->0.session_id) == Some(session),
    ensures
        ({
            let asked = v.preview->0;
            let after = v.captured(
                asked.request_id,
                asked.session_id,
                Err::<String, String>(error),
            );
            &&& after.preview is Some
            &&& after.preview->0.content == (ContentView::Failed {
                error: error@,
                fallback: cached_text(session, v.home),
            })
            &&& after == PickerView { preview: after.preview, ..v }
        }),
{
}

} // verus!
