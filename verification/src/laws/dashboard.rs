//! What the dashboard shows, in what order and under which headings.

use vstd::prelude::*;

use crate::domain::{Activity, Session};
use crate::order::{ranked_contains, ranked_is_in_order, ranked_is_permutation};
use crate::picker::dashboard::{
    activity_is_current, choices_of, cwd_run, dashboard_section, first_from, first_of, host_run,
    is_navigable, is_session_row, last_before, last_of, lemma_cwd_run, lemma_host_run,
    matches_query, session_rows, SortedRef,
};
use crate::picker::{
    DashboardRow, DashboardSection, GroupConnectivity, GroupKeyView, PickerView, SessionRef,
};
use crate::text::{text_le, text_lt};

verus! {

// ---- the parts of the inventory ----

/// A session that the user settled is archived. Any other that works, waits, has failed or is
/// unread is current; and one that is none of these stands by its age: up to a day, up to a
/// week, and older in the archive.
pub proof fn every_session_has_its_section(
    session: &Session,
    settled: bool,
    unread: bool,
    now: u64,
    r: DashboardSection,
)
    requires
        call_ensures(dashboard_section, (session, settled, unread, now), r),
    ensures
        ({
            let busy = session.activity is Working || session.activity is WaitingApproval
                || session.activity is WaitingInput || session.activity is Failed;
            let at = session.last_interaction_unix_seconds;
            &&& r is Current <==> !settled && (busy || unread)
            &&& r is LastDay <==> !settled && !busy && !unread && now - at <= 86_400
            &&& r is LastWeek <==> !settled && !busy && !unread && 86_400 < now - at <= 604_800
            &&& r is Archive <==> settled || (!busy && !unread && now - at > 604_800)
        }),
{
}

/// A session works for the user, or needs them, where it works, waits or has failed.
pub proof fn busy_sessions_are_current(activity: Activity, r: bool)
    requires
        call_ensures(activity_is_current, (activity,), r),
    ensures
        r <==> !(activity is Completed) && !(activity is Unknown),
{
}

/// A session stands in the archive: the user settled it, or it is idle, read and older than a
/// week.
pub open spec fn is_put_away(v: PickerView, session_ref: SessionRef, now: u64) -> bool {
    let session = v.session_of(session_ref);
    ||| session_ref is Settled
    ||| {
        &&& session.activity is Completed || session.activity is Unknown
        &&& !v.unread_ids.contains(session.id@)
        &&& now - session.last_interaction_unix_seconds > 604_800
    }
}

/// The session belongs to the host that is shown, where one is chosen.
pub open spec fn is_of_shown_host(v: PickerView, session: Session) -> bool {
    v.host_filter == "all"@ || session.host@ == v.host_filter
}

proof fn lemma_sorted_entries(v: PickerView, query: Seq<char>, now: u64, archive: bool)
    ensures
        forall|a: int|
            0 <= a < v.sorted(query, now, archive).len() ==> (#[trigger] v.sorted(
                query,
                now,
                archive,
            )[a]) == v.sort_entry(v.sorted(query, now, archive)[a].session_ref),
        v.sorted(query, now, archive).len() == v.listed(query, now, archive).len(),
{
    let listed = v.listed(query, now, archive);
    let entries = listed.map_values(|r: SessionRef| v.sort_entry(r));
    let order = v.sorted(query, now, archive);
    ranked_is_permutation(entries);
    assert forall|a: int| 0 <= a < order.len() implies (#[trigger] order[a]) == v.sort_entry(
        order[a].session_ref,
    ) by {
        ranked_contains(entries, order[a]);
        assert(order.contains(order[a]));
        let k = choose|k: int| 0 <= k < entries.len() && entries[k] == order[a];
        assert(entries[k] == v.sort_entry(listed[k]));
    }
}

/// A session is listed above the archive or in it exactly where it is in the inventory, is of
/// the host that is shown, matches the query, and is not put away or is.
pub proof fn the_dashboard_lists_what_is_shown(
    v: PickerView,
    query: Seq<char>,
    now: u64,
    archive: bool,
    session_ref: SessionRef,
)
    requires
        v.refs().contains(session_ref),
    ensures
        (exists|a: int|
            0 <= a < v.sorted(query, now, archive).len() && (#[trigger] v.sorted(
                query,
                now,
                archive,
            )[a]).session_ref == session_ref) <==> is_of_shown_host(
            v,
            v.session_of(session_ref),
        ) && matches_query(v.session_of(session_ref), query) && is_put_away(v, session_ref, now)
            == archive,
{
    let keep = |r: SessionRef| v.lists(r, query, now, archive);
    let listed = v.listed(query, now, archive);
    let entries = listed.map_values(|r: SessionRef| v.sort_entry(r));
    let order = v.sorted(query, now, archive);
    lemma_sorted_entries(v, query, now, archive);
    let i = choose|i: int| 0 <= i < v.refs().len() && v.refs()[i] == session_ref;
    assert(keep(session_ref) == (is_of_shown_host(v, v.session_of(session_ref)) && matches_query(
        v.session_of(session_ref),
        query,
    ) && is_put_away(v, session_ref, now) == archive));
    if keep(session_ref) {
        v.refs().lemma_filter_contains(keep, i);
        let k = choose|k: int| 0 <= k < listed.len() && listed[k] == session_ref;
        assert(entries[k] == v.sort_entry(session_ref));
        ranked_contains(entries, v.sort_entry(session_ref));
        let a = choose|a: int| 0 <= a < order.len() && order[a] == v.sort_entry(session_ref);
        assert(order[a].session_ref == session_ref);
    }
    if exists|a: int| 0 <= a < order.len() && (#[trigger] order[a]).session_ref == session_ref {
        let a = choose|a: int|
            0 <= a < order.len() && (#[trigger] order[a]).session_ref == session_ref;
        ranked_contains(entries, order[a]);
        assert(order.contains(order[a]));
        let k = choose|k: int| 0 <= k < entries.len() && entries[k] == order[a];
        assert(listed[k] == session_ref);
        v.refs().lemma_filter_pred(keep, k);
    }
}

/// One activity is more urgent than another: work, then waiting, then failure, then
/// completion, and last what is unknown.
pub open spec fn more_urgent(a: Activity, b: Activity) -> bool {
    match a {
        Activity::Working => !(b is Working),
        Activity::WaitingApproval | Activity::WaitingInput => b is Failed || b is Completed
            || b is Unknown,
        Activity::Failed => b is Completed || b is Unknown,
        Activity::Completed => b is Unknown,
        Activity::Unknown => false,
    }
}

/// The order of two sessions of the dashboard: those of this machine first, then by host and
/// by directory; within a directory the unread ones first, then the more urgent, then the ones
/// used last, and then by identifier.
pub open spec fn stands_before(v: PickerView, a: Session, b: Session) -> bool {
    let same_host = a.host@ == b.host@;
    let same_project = same_host && a.cwd@ == b.cwd@;
    let a_unread = v.unread_ids.contains(a.id@);
    let b_unread = v.unread_ids.contains(b.id@);
    let as_urgent = !more_urgent(a.activity, b.activity) && !more_urgent(b.activity, a.activity);
    &&& b.host@ == v.local_hostname ==> a.host@ == v.local_hostname
    &&& (a.host@ == v.local_hostname) == (b.host@ == v.local_hostname) ==> text_le(a.host@, b.host@)
    &&& same_host ==> text_le(a.cwd@, b.cwd@)
    &&& same_project && b_unread ==> a_unread
    &&& same_project && a_unread == b_unread ==> !more_urgent(b.activity, a.activity)
    &&& same_project && a_unread == b_unread && as_urgent ==> a.last_interaction_unix_seconds
        >= b.last_interaction_unix_seconds
    &&& same_project && a_unread == b_unread && as_urgent && a.last_interaction_unix_seconds
        == b.last_interaction_unix_seconds ==> text_le(a.id@, b.id@)
}

/// Earlier sessions of the dashboard stand before later ones.
pub proof fn sessions_stand_in_their_order(
    v: PickerView,
    query: Seq<char>,
    now: u64,
    archive: bool,
    i: int,
    j: int,
)
    requires
        0 <= i < j < v.sorted(query, now, archive).len(),
    ensures
        stands_before(
            v,
            v.session_of(v.sorted(query, now, archive)[i].session_ref),
            v.session_of(v.sorted(query, now, archive)[j].session_ref),
        ),
{
    let entries = v.listed(query, now, archive).map_values(|r: SessionRef| v.sort_entry(r));
    let order = v.sorted(query, now, archive);
    ranked_is_in_order(entries);
    lemma_sorted_entries(v, query, now, archive);
    assert(crate::order::Ranked::at_most(order[i], order[j]));
    assert(order[i] == v.sort_entry(order[i].session_ref));
    assert(order[j] == v.sort_entry(order[j].session_ref));
}

// ---- rows and headings ----

/// The rows of sessions follow the entries: each is one of them, and they stand in their
/// order.
pub open spec fn follow(rows: Seq<DashboardRow>, entries: Seq<SortedRef>) -> bool {
    &&& forall|i: int|
        0 <= i < rows.len() && (#[trigger] rows[i]) is Session ==> exists|a: int|
            0 <= a < entries.len() && (#[trigger] entries[a]).session_ref == rows[i]->Session_0
    &&& forall|i: int, j: int|
        0 <= i < j < rows.len() && (#[trigger] rows[i]) is Session && (#[trigger] rows[j])
            is Session ==> exists|a: int, b: int|
            0 <= a < b < entries.len() && (#[trigger] entries[a]).session_ref
                == rows[i]->Session_0 && (#[trigger] entries[b]).session_ref == rows[j]->Session_0
}

proof fn lemma_follow_parts(
    head: DashboardRow,
    mid: Seq<DashboardRow>,
    tail: Seq<DashboardRow>,
    entries: Seq<SortedRef>,
    n: int,
)
    requires
        !(head is Session),
        0 <= n <= entries.len(),
        follow(mid, entries.take(n)),
        follow(tail, entries.skip(n)),
    ensures
        follow(seq![head] + mid + tail, entries),
{
    let rows = seq![head] + mid + tail;
    let own = entries.take(n);
    let rest = entries.skip(n);
    let m = mid.len() as int;
    assert forall|i: int| 0 <= i < rows.len() && (#[trigger] rows[i]) is Session implies exists|
        a: int,
    |
        0 <= a < entries.len() && (#[trigger] entries[a]).session_ref == rows[i]->Session_0 by {
        if i <= m {
            assert(rows[i] == mid[i - 1]);
            let a = choose|a: int|
                0 <= a < own.len() && (#[trigger] own[a]).session_ref == mid[i - 1]->Session_0;
            assert(entries[a] == own[a]);
        } else {
            assert(rows[i] == tail[i - 1 - m]);
            let a = choose|a: int|
                0 <= a < rest.len() && (#[trigger] rest[a]).session_ref == tail[i - 1
                    - m]->Session_0;
            assert(entries[n + a] == rest[a]);
        }
    }
    assert forall|i: int, j: int|
        0 <= i < j < rows.len() && (#[trigger] rows[i]) is Session && (#[trigger] rows[j])
            is Session implies exists|a: int, b: int|
        0 <= a < b < entries.len() && (#[trigger] entries[a]).session_ref == rows[i]->Session_0
            && (#[trigger] entries[b]).session_ref == rows[j]->Session_0 by {
        if j <= m {
            assert(rows[i] == mid[i - 1]);
            assert(rows[j] == mid[j - 1]);
            let (a, b) = choose|a: int, b: int|
                0 <= a < b < own.len() && (#[trigger] own[a]).session_ref == mid[i - 1]->Session_0
                    && (#[trigger] own[b]).session_ref == mid[j - 1]->Session_0;
            assert(entries[a] == own[a]);
            assert(entries[b] == own[b]);
        } else if i > m {
            assert(rows[i] == tail[i - 1 - m]);
            assert(rows[j] == tail[j - 1 - m]);
            let (a, b) = choose|a: int, b: int|
                0 <= a < b < rest.len() && (#[trigger] rest[a]).session_ref == tail[i - 1
                    - m]->Session_0 && (#[trigger] rest[b]).session_ref == tail[j - 1
                    - m]->Session_0;
            assert(entries[n + a] == rest[a]);
            assert(entries[n + b] == rest[b]);
        } else {
            assert(rows[i] == mid[i - 1]);
            assert(rows[j] == tail[j - 1 - m]);
            let a = choose|a: int|
                0 <= a < own.len() && (#[trigger] own[a]).session_ref == mid[i - 1]->Session_0;
            let b = choose|b: int|
                0 <= b < rest.len() && (#[trigger] rest[b]).session_ref == tail[j - 1
                    - m]->Session_0;
            assert(entries[a] == own[a]);
            assert(entries[n + b] == rest[b]);
        }
    }
}

/// A row of a session stands under the heading of its directory, with only sessions between.
pub open spec fn under_project(v: PickerView, rows: Seq<DashboardRow>, k: int) -> bool {
    let session = v.session_of(rows[k]->Session_0);
    exists|g: int|
        0 <= g < k && (#[trigger] rows[g]) is Group && rows[g]->Group_cwd@ == session.cwd@
            && rows[g]->Group_host@ == session.host@ && forall|m: int|
            g < m < k ==> (#[trigger] rows[m]) is Session
}

/// A row of a session or a directory stands under the heading of its host, with no other host
/// between.
pub open spec fn under_host(rows: Seq<DashboardRow>, k: int, host: Seq<char>) -> bool {
    exists|g: int|
        0 <= g < k && (#[trigger] rows[g]) is Host && rows[g]->Host_host@ == host && forall|m: int|
            g < m < k ==> (#[trigger] rows[m]) is Session || rows[m] is Group
}

/// The entries are the places of their sessions.
pub open spec fn are_places(v: PickerView, entries: Seq<SortedRef>) -> bool {
    forall|a: int|
        0 <= a < entries.len() ==> (#[trigger] entries[a]) == v.sort_entry(entries[a].session_ref)
}

/// The rows of one host: directories of it, and sessions of it under their directories.
pub open spec fn are_projects(v: PickerView, rows: Seq<DashboardRow>, host: Seq<char>) -> bool {
    &&& forall|k: int|
        0 <= k < rows.len() ==> (#[trigger] rows[k]) is Group || rows[k] is Session
    &&& forall|k: int|
        0 <= k < rows.len() && (#[trigger] rows[k]) is Group ==> rows[k]->Group_host@ == host
    &&& forall|k: int|
        0 <= k < rows.len() && (#[trigger] rows[k]) is Session ==> under_project(v, rows, k)
            && v.session_of(rows[k]->Session_0).host@ == host
}

/// The rows of several hosts: sessions and directories under their hosts.
pub open spec fn are_hosts(v: PickerView, rows: Seq<DashboardRow>) -> bool {
    &&& forall|k: int|
        0 <= k < rows.len() ==> (#[trigger] rows[k]) is Host || rows[k] is Group || rows[k]
            is Session
    &&& forall|k: int|
        0 <= k < rows.len() && (#[trigger] rows[k]) is Group ==> under_host(
            rows,
            k,
            rows[k]->Group_host@,
        )
    &&& forall|k: int|
        0 <= k < rows.len() && (#[trigger] rows[k]) is Session ==> under_project(v, rows, k)
            && under_host(rows, k, v.session_of(rows[k]->Session_0).host@)
}

/// A session under its directory stays there where rows are put before.
proof fn lemma_under_project_shift(
    v: PickerView,
    before: Seq<DashboardRow>,
    part: Seq<DashboardRow>,
    after: Seq<DashboardRow>,
    t: int,
)
    requires
        0 <= t < part.len(),
        under_project(v, part, t),
    ensures
        under_project(v, before + part + after, before.len() + t),
{
    let rows = before + part + after;
    let from = before.len() as int;
    let session = v.session_of(part[t]->Session_0);
    assert(rows[from + t] == part[t]);
    let g = choose|g: int|
        0 <= g < t && (#[trigger] part[g]) is Group && part[g]->Group_cwd@ == session.cwd@
            && part[g]->Group_host@ == session.host@ && forall|x: int|
            g < x < t ==> (#[trigger] part[x]) is Session;
    assert(rows[from + g] == part[g]);
    assert forall|x: int| from + g < x < from + t implies (#[trigger] rows[x]) is Session by {
        assert(rows[x] == part[x - from]);
    }
}

/// A row under its host stays there where rows are put before.
proof fn lemma_under_host_shift(
    before: Seq<DashboardRow>,
    part: Seq<DashboardRow>,
    t: int,
    host: Seq<char>,
)
    requires
        0 <= t < part.len(),
        under_host(part, t, host),
    ensures
        under_host(before + part, before.len() + t, host),
{
    let rows = before + part;
    let from = before.len() as int;
    let g = choose|g: int|
        0 <= g < t && (#[trigger] part[g]) is Host && part[g]->Host_host@ == host && forall|x: int|
            g < x < t ==> (#[trigger] part[x]) is Session || part[x] is Group;
    assert(rows[from + g] == part[g]);
    assert forall|x: int| from + g < x < from + t implies (#[trigger] rows[x]) is Session || rows[x]
        is Group by {
        assert(rows[x] == part[x - from]);
    }
}

proof fn lemma_project_parts(
    v: PickerView,
    head: DashboardRow,
    mid: Seq<DashboardRow>,
    tail: Seq<DashboardRow>,
    host: Seq<char>,
)
    requires
        head is Group,
        head->Group_host@ == host,
        forall|k: int|
            0 <= k < mid.len() ==> (#[trigger] mid[k]) is Session && v.session_of(
                mid[k]->Session_0,
            ).cwd@ == head->Group_cwd@ && v.session_of(mid[k]->Session_0).host@ == host,
        are_projects(v, tail, host),
    ensures
        are_projects(v, seq![head] + mid + tail, host),
{
    let rows = seq![head] + mid + tail;
    let m = mid.len() as int;
    assert(rows =~= (seq![head] + mid) + tail + Seq::<DashboardRow>::empty());
    assert forall|k: int| 0 <= k < rows.len() && (#[trigger] rows[k]) is Session implies
        under_project(v, rows, k) && v.session_of(rows[k]->Session_0).host@ == host by {
        if k <= m {
            assert(rows[k] == mid[k - 1]);
            assert(rows[0] == head);
            assert forall|x: int| 0 < x < k implies (#[trigger] rows[x]) is Session by {
                assert(rows[x] == mid[x - 1]);
            }
        } else {
            assert(rows[k] == tail[k - 1 - m]);
            lemma_under_project_shift(
                v,
                seq![head] + mid,
                tail,
                Seq::<DashboardRow>::empty(),
                k - 1 - m,
            );
        }
    }
    assert forall|k: int| 0 <= k < rows.len() implies (#[trigger] rows[k]) is Group || rows[k]
        is Session by {
        if 0 < k <= m {
            assert(rows[k] == mid[k - 1]);
        } else if k > m {
            assert(rows[k] == tail[k - 1 - m]);
        }
    }
    assert forall|k: int| 0 <= k < rows.len() && (#[trigger] rows[k]) is Group implies
        rows[k]->Group_host@ == host by {
        if 0 < k <= m {
            assert(rows[k] == mid[k - 1]);
        } else if k > m {
            assert(rows[k] == tail[k - 1 - m]);
        }
    }
}

proof fn lemma_host_parts(
    v: PickerView,
    head: DashboardRow,
    mid: Seq<DashboardRow>,
    tail: Seq<DashboardRow>,
    host: Seq<char>,
)
    requires
        head is Host,
        head->Host_host@ == host,
        are_projects(v, mid, host),
        are_hosts(v, tail),
    ensures
        are_hosts(v, seq![head] + mid + tail),
{
    let rows = seq![head] + mid + tail;
    let m = mid.len() as int;
    let start = seq![head] + mid;
    assert(rows =~= start + tail + Seq::<DashboardRow>::empty());
    assert(rows[0] == head);
    assert forall|k: int| 0 <= k < rows.len() implies (#[trigger] rows[k]) is Host || rows[k]
        is Group || rows[k] is Session by {
        if 0 < k <= m {
            assert(rows[k] == mid[k - 1]);
        } else if k > m {
            assert(rows[k] == tail[k - 1 - m]);
        }
    }
    assert forall|k: int| 0 < k <= m implies #[trigger] under_host(rows, k, host) by {
        assert forall|x: int| 0 < x < k implies (#[trigger] rows[x]) is Session || rows[x]
            is Group by {
            assert(rows[x] == mid[x - 1]);
        }
    }
    assert forall|k: int| 0 <= k < rows.len() && (#[trigger] rows[k]) is Group implies under_host(
        rows,
        k,
        rows[k]->Group_host@,
    ) by {
        if k <= m {
            assert(rows[k] == mid[k - 1]);
            assert(under_host(rows, k, host));
        } else {
            assert(rows[k] == tail[k - 1 - m]);
            lemma_under_host_shift(start, tail, k - 1 - m, rows[k]->Group_host@);
        }
    }
    assert forall|k: int| 0 <= k < rows.len() && (#[trigger] rows[k]) is Session implies
        under_project(v, rows, k) && under_host(
        rows,
        k,
        v.session_of(rows[k]->Session_0).host@,
    ) by {
        if k <= m {
            assert(rows[k] == mid[k - 1]);
            assert(under_host(rows, k, host));
            lemma_under_project_shift(v, seq![head], mid, tail, k - 1);
        } else {
            assert(rows[k] == tail[k - 1 - m]);
            lemma_under_project_shift(v, start, tail, Seq::<DashboardRow>::empty(), k - 1 - m);
            lemma_under_host_shift(
                start,
                tail,
                k - 1 - m,
                v.session_of(rows[k]->Session_0).host@,
            );
        }
    }
}

proof fn lemma_follow_sessions(own: Seq<SortedRef>)
    ensures
        follow(session_rows(own), own),
{
    let mid = session_rows(own);
    assert forall|i: int| 0 <= i < mid.len() && (#[trigger] mid[i]) is Session implies exists|
        a: int,
    |
        0 <= a < own.len() && (#[trigger] own[a]).session_ref == mid[i]->Session_0 by {
        assert(own[i].session_ref == mid[i]->Session_0);
    }
    assert forall|i: int, j: int|
        0 <= i < j < mid.len() && (#[trigger] mid[i]) is Session && (#[trigger] mid[j])
            is Session implies exists|a: int, b: int|
        0 <= a < b < own.len() && (#[trigger] own[a]).session_ref == mid[i]->Session_0 && (
        #[trigger] own[b]).session_ref == mid[j]->Session_0 by {
        assert(own[i].session_ref == mid[i]->Session_0);
        assert(own[j].session_ref == mid[j]->Session_0);
    }
}

proof fn lemma_projects(
    v: PickerView,
    entries: Seq<SortedRef>,
    section: DashboardSection,
    query_active: bool,
    host: Seq<char>,
)
    requires
        are_places(v, entries),
        forall|a: int| 0 <= a < entries.len() ==> (#[trigger] entries[a]).host@ == host,
    ensures
        follow(v.project_rows(entries, section, query_active), entries),
        are_projects(v, v.project_rows(entries, section, query_active), host),
    decreases entries.len(),
{
    if entries.len() > 0 {
        let cwd = entries[0].cwd@;
        let n = cwd_run(entries, cwd) as int;
        lemma_cwd_run(entries, cwd);
        let own = entries.take(n);
        let rest = entries.skip(n);
        let head = v.project_head(own, section, query_active);
        let expanded = v.project_expanded(entries[0], section, query_active);
        let mid = if expanded {
            session_rows(own)
        } else {
            Seq::empty()
        };
        let tail = v.project_rows(rest, section, query_active);
        assert(forall|a: int| 0 <= a < rest.len() ==> #[trigger] rest[a] == entries[n + a]);
        assert(forall|a: int| 0 <= a < own.len() ==> #[trigger] own[a] == entries[a]);
        assert(own[0] == entries[0]);
        lemma_projects(v, rest, section, query_active, host);
        lemma_follow_sessions(own);
        assert forall|k: int| 0 <= k < mid.len() implies (#[trigger] mid[k]) is Session
            && v.session_of(mid[k]->Session_0).cwd@ == head->Group_cwd@ && v.session_of(
            mid[k]->Session_0,
        ).host@ == host by {
            assert(mid[k] == DashboardRow::Session(own[k].session_ref));
            assert(own[k] == v.sort_entry(own[k].session_ref));
            assert(own[k].cwd@ == cwd);
        }
        lemma_follow_parts(head, mid, tail, entries, n);
        lemma_project_parts(v, head, mid, tail, host);
        assert(v.project_rows(entries, section, query_active) == seq![head] + mid + tail);
    }
}

proof fn lemma_hosts(
    v: PickerView,
    entries: Seq<SortedRef>,
    section: DashboardSection,
    query_active: bool,
)
    requires
        are_places(v, entries),
    ensures
        follow(v.host_rows(entries, section, query_active), entries),
        are_hosts(v, v.host_rows(entries, section, query_active)),
    decreases entries.len(),
{
    if entries.len() > 0 {
        let host = entries[0].host@;
        let n = host_run(entries, host) as int;
        lemma_host_run(entries, host);
        let own = entries.take(n);
        let rest = entries.skip(n);
        let head = v.host_head(own, section, query_active);
        let mid = if v.host_expanded(entries[0], section, query_active) {
            v.project_rows(own, section, query_active)
        } else {
            Seq::empty()
        };
        let tail = v.host_rows(rest, section, query_active);
        assert(forall|a: int| 0 <= a < rest.len() ==> #[trigger] rest[a] == entries[n + a]);
        assert(forall|a: int| 0 <= a < own.len() ==> #[trigger] own[a] == entries[a]);
        assert(own[0] == entries[0]);
        lemma_projects(v, own, section, query_active, host);
        lemma_hosts(v, rest, section, query_active);
        lemma_follow_parts(head, mid, tail, entries, n);
        lemma_host_parts(v, head, mid, tail, host);
        assert(v.host_rows(entries, section, query_active) == seq![head] + mid + tail);
    }
}

/// In each part of the dashboard every session stands under the heading of its directory and
/// host, every directory under the heading of its host, and the sessions stand in their order.
pub proof fn every_session_stands_under_its_headings(
    v: PickerView,
    query: Seq<char>,
    now: u64,
    archive: bool,
    section: DashboardSection,
)
    ensures
        ({
            let rows = v.host_rows(v.sorted(query, now, archive), section, query.len() > 0);
            &&& forall|k: int|
                0 <= k < rows.len() && (#[trigger] rows[k]) is Session ==> under_project(v, rows, k)
                    && under_host(rows, k, v.session_of(rows[k]->Session_0).host@)
            &&& forall|k: int|
                0 <= k < rows.len() && (#[trigger] rows[k]) is Group ==> under_host(
                    rows,
                    k,
                    rows[k]->Group_host@,
                )
            &&& forall|i: int, j: int|
                0 <= i < j < rows.len() && (#[trigger] rows[i]) is Session && (#[trigger] rows[j])
                    is Session ==> stands_before(
                    v,
                    v.session_of(rows[i]->Session_0),
                    v.session_of(rows[j]->Session_0),
                )
        }),
{
    let entries = v.sorted(query, now, archive);
    let rows = v.host_rows(entries, section, query.len() > 0);
    lemma_sorted_entries(v, query, now, archive);
    lemma_hosts(v, entries, section, query.len() > 0);
    assert forall|i: int, j: int|
        0 <= i < j < rows.len() && (#[trigger] rows[i]) is Session && (#[trigger] rows[j])
            is Session implies stands_before(
        v,
        v.session_of(rows[i]->Session_0),
        v.session_of(rows[j]->Session_0),
    ) by {
        let (a, b) = choose|a: int, b: int|
            0 <= a < b < entries.len() && (#[trigger] entries[a]).session_ref == rows[i]->Session_0
                && (#[trigger] entries[b]).session_ref == rows[j]->Session_0;
        sessions_stand_in_their_order(v, query, now, archive, a, b);
    }
}

/// The dashboard is the sessions above the archive, then the archive's own row with how many
/// it holds, and below it, where the archive is open, what is in it. A search that finds
/// something there opens it.
pub proof fn the_archive_stands_below(v: PickerView, query: Seq<char>, now: u64)
    ensures
        ({
            let above = v.host_rows(
                v.sorted(query, now, false),
                DashboardSection::Current,
                query.len() > 0,
            );
            let below = v.host_rows(
                v.sorted(query, now, true),
                DashboardSection::Archive,
                query.len() > 0,
            );
            let rows = v.dashboard(query, now);
            let held = v.sorted(query, now, true).len();
            let open = v.expanded_sections.archive || (query.len() > 0 && held > 0);
            let mark = rows[above.len() as int];
            &&& rows.len() == above.len() + 1 + (if open {
                below.len() as int
            } else {
                0
            })
            &&& rows.take(above.len() as int) == above
            &&& open ==> rows.skip(above.len() as int + 1) == below
            &&& mark is Section && mark->Section_section is Archive && mark->Section_expanded
                == open
            &&& held <= usize::MAX ==> mark->Section_count == held
        }),
{
    lemma_sorted_entries(v, query, now, true);
    let above = v.host_rows(
        v.sorted(query, now, false),
        DashboardSection::Current,
        query.len() > 0,
    );
    let below = v.host_rows(
        v.sorted(query, now, true),
        DashboardSection::Archive,
        query.len() > 0,
    );
    let rows = v.dashboard(query, now);
    assert(rows.take(above.len() as int) =~= above);
    if v.archive_expanded(query, now) {
        assert(rows.skip(above.len() as int + 1) =~= below);
    }
}

/// The heading of a directory or a host tells how many sessions it has, whether one of them
/// is fresh, and whether it is open: in a search always, and else unless the user closed it.
pub proof fn headings_tell_of_their_sessions(
    v: PickerView,
    own: Seq<SortedRef>,
    section: DashboardSection,
    query_active: bool,
)
    requires
        0 < own.len() <= usize::MAX,
    ensures
        ({
            let project = v.project_head(own, section, query_active);
            let host = v.host_head(own, section, query_active);
            let fresh = exists|i: int|
                0 <= i < own.len() && v.fresh_ids.contains(#[trigger] own[i].id@);
            &&& project->Group_cwd@ == own[0].cwd@ && project->Group_host@ == own[0].host@
            &&& project->Group_count == own.len() && project->Group_fresh == fresh
            &&& project->Group_expanded == (query_active || !v.collapsed_groups.contains(
                GroupKeyView::Project { section, host: own[0].host@, cwd: own[0].cwd@ },
            ))
            &&& host->Host_host@ == own[0].host@
            &&& host->Host_count == own.len() && host->Host_fresh == fresh
            &&& host->Host_expanded == (query_active || !v.collapsed_groups.contains(
                GroupKeyView::Host { section, host: own[0].host@ },
            ))
        }),
{
}

// ---- counts ----

/// The header counts, of what is shown, as current the sessions with a live process and those
/// that are current; as recent all that were used within a day or a week, whatever else they
/// are; and as archived those that are put away.
pub proof fn the_header_counts_what_is_shown(
    v: PickerView,
    session_ref: SessionRef,
    query: Seq<char>,
    now: u64,
)
    ensures
        ({
            let session = v.session_of(session_ref);
            let at = session.last_interaction_unix_seconds;
            let busy = !(session.activity is Completed) && !(session.activity is Unknown);
            let shown = is_of_shown_host(v, session) && matches_query(session, query);
            &&& v.counts(session_ref, DashboardSection::Current, query, now) <==> shown && (!(
            session.runtime is Resumable) || (session_ref is Active && (busy
                || v.unread_ids.contains(session.id@))))
            &&& v.counts(session_ref, DashboardSection::LastDay, query, now) <==> shown && now - at
                <= 86_400
            &&& v.counts(session_ref, DashboardSection::LastWeek, query, now) <==> shown && now
                - at <= 604_800
            &&& v.counts(session_ref, DashboardSection::Archive, query, now) <==> shown
                && is_put_away(v, session_ref, now)
        }),
{
}

// ---- the cursor ----

/// A row that the cursor can stand on.
pub open spec fn holds_the_cursor(row: DashboardRow) -> bool {
    row is Section || row is Host || row is Group || row is Session
}

proof fn lemma_first_from(
    rows: Seq<DashboardRow>,
    property: spec_fn(DashboardRow) -> bool,
    i: nat,
)
    requires
        rows.len() <= usize::MAX,
    ensures
        match first_from(rows, property, i) {
            Some(k) => i <= k < rows.len() && property(rows[k as int]) && forall|j: int|
                i <= j < k ==> !property(#[trigger] rows[j]),
            None => forall|j: int| i <= j < rows.len() ==> !property(#[trigger] rows[j]),
        },
    decreases rows.len() - i,
{
    if i < rows.len() && !property(rows[i as int]) {
        lemma_first_from(rows, property, i + 1);
    }
}

proof fn lemma_last_before(
    rows: Seq<DashboardRow>,
    property: spec_fn(DashboardRow) -> bool,
    n: nat,
)
    requires
        n <= rows.len() <= usize::MAX,
    ensures
        match last_before(rows, property, n) {
            Some(k) => k < n && property(rows[k as int]) && forall|j: int|
                k < j < n ==> !property(#[trigger] rows[j]),
            None => forall|j: int| 0 <= j < n ==> !property(#[trigger] rows[j]),
        },
    decreases n,
{
    if n > 0 && !property(rows[n - 1]) {
        lemma_last_before(rows, property, (n - 1) as nat);
    }
}

/// Moving down goes to the next row that holds the cursor and moving up to the one before; at
/// the ends the cursor stays.
pub proof fn the_cursor_moves_by_one_row(v: PickerView)
    requires
        v.rows.len() <= usize::MAX,
        v.selected_row < v.rows.len(),
    ensures
        ({
            let next = v.next_row();
            let previous = v.previous_row();
            &&& next > v.selected_row ==> next < v.rows.len() && holds_the_cursor(
                v.rows[next as int],
            ) && forall|j: int|
                v.selected_row < j < next ==> !holds_the_cursor(#[trigger] v.rows[j])
            &&& next <= v.selected_row ==> next == v.selected_row && forall|j: int|
                v.selected_row < j < v.rows.len() ==> !holds_the_cursor(#[trigger] v.rows[j])
            &&& previous < v.selected_row ==> holds_the_cursor(v.rows[previous as int]) && forall|
                j: int,
            |
                previous < j < v.selected_row ==> !holds_the_cursor(#[trigger] v.rows[j])
            &&& previous >= v.selected_row ==> previous == v.selected_row && forall|j: int|
                0 <= j < v.selected_row ==> !holds_the_cursor(#[trigger] v.rows[j])
        }),
{
    let property = is_navigable();
    lemma_first_from(v.rows, property, (v.selected_row + 1) as nat);
    lemma_last_before(v.rows, property, v.selected_row as nat);
    assert forall|j: int| 0 <= j < v.rows.len() implies property(#[trigger] v.rows[j])
        == holds_the_cursor(v.rows[j]) by {}
}

/// The first and the last place of the cursor are the first and the last session, where there
/// is one.
pub proof fn the_cursor_starts_on_a_session(rows: Seq<DashboardRow>, k: int)
    requires
        rows.len() <= usize::MAX,
        0 <= k < rows.len(),
        rows[k] is Session,
    ensures
        first_of(rows) <= k <= last_of(rows) < rows.len(),
        rows[first_of(rows) as int] is Session,
        rows[last_of(rows) as int] is Session,
{
    lemma_first_from(rows, is_session_row(), 0);
    lemma_last_before(rows, is_session_row(), rows.len());
    assert(is_session_row()(rows[k]));
}

// ---- hosts ----

/// The choices of hosts are all hosts first, then this machine, and then the others by name.
pub proof fn host_choices_stand_in_order(
    names: Seq<Seq<char>>,
    local_hostname: Seq<char>,
    i: int,
    j: int,
)
    requires
        0 <= i < j < choices_of(names, local_hostname).len(),
        local_hostname != "all"@,
    ensures
        ({
            let a = choices_of(names, local_hostname)[i];
            let b = choices_of(names, local_hostname)[j];
            &&& a != b
            &&& b != "all"@
            &&& b == local_hostname ==> a == "all"@
            &&& a != "all"@ && a != local_hostname ==> text_lt(a, b)
        }),
{
    crate::picker::dashboard::host_choices_are_ordered_and_complete(names, local_hostname, names[0]);
    let choices = choices_of(names, local_hostname);
    assert(crate::picker::dashboard::choice_before(choices[i], choices[j], local_hostname));
    crate::text::text_lt_irreflexive(choices[i]);
}

/// Every host that is configured or has a session can be chosen, and nothing else but all
/// hosts. A filter that can no longer be chosen shows all hosts again; any other stays.
pub proof fn every_host_can_be_chosen(v: PickerView, name: Seq<char>)
    ensures
        ({
            let after = v.with_choices();
            let configured = exists|i: int|
                0 <= i < v.discovery_targets.len() && crate::tmux::observed_host_text(
                    #[trigger] v.discovery_targets[i],
                    v.local_hostname,
                ) == name;
            let used = (exists|i: int|
                0 <= i < v.active.len() && (#[trigger] v.active[i]).host@ == name) || (exists|i: int|
                0 <= i < v.settled.len() && (#[trigger] v.settled[i]).host@ == name);
            &&& after.host_choices.contains(name) <==> name == "all"@ || configured || used
            &&& after.host_choices.contains(v.host_filter) ==> after.host_filter == v.host_filter
            &&& !after.host_choices.contains(v.host_filter) ==> after.host_filter == "all"@
        }),
{
    let names = v.host_names();
    crate::picker::dashboard::host_choices_are_ordered_and_complete(names, v.local_hostname, name);
    let targets = v.observed_targets();
    let active = crate::picker::dashboard::session_hosts(v.active);
    let settled = crate::picker::dashboard::session_hosts(v.settled);
    let t = targets.len() as int;
    let a = active.len() as int;
    if names.contains(name) {
        let k = choose|k: int| 0 <= k < names.len() && names[k] == name;
        if k > 0 && k <= t {
            assert(targets[k - 1] == name);
            assert(crate::tmux::observed_host_text(v.discovery_targets[k - 1], v.local_hostname)
                == name);
        } else if k > t && k <= t + a {
            assert(active[k - 1 - t] == name);
            assert(v.active[k - 1 - t].host@ == name);
        } else if k > t + a {
            assert(settled[k - 1 - t - a] == name);
            assert(v.settled[k - 1 - t - a].host@ == name);
        }
    }
    if name == "all"@ {
        assert(names[0] == name);
    }
    if exists|i: int|
        0 <= i < v.discovery_targets.len() && crate::tmux::observed_host_text(
            #[trigger] v.discovery_targets[i],
            v.local_hostname,
        ) == name {
        let i = choose|i: int|
            0 <= i < v.discovery_targets.len() && crate::tmux::observed_host_text(
                #[trigger] v.discovery_targets[i],
                v.local_hostname,
            ) == name;
        assert(targets[i] == name);
        assert(names[1 + i] == name);
    }
    if exists|i: int| 0 <= i < v.active.len() && (#[trigger] v.active[i]).host@ == name {
        let i = choose|i: int| 0 <= i < v.active.len() && (#[trigger] v.active[i]).host@ == name;
        assert(active[i] == name);
        assert(names[1 + t + i] == name);
    }
    if exists|i: int| 0 <= i < v.settled.len() && (#[trigger] v.settled[i]).host@ == name {
        let i = choose|i: int| 0 <= i < v.settled.len() && (#[trigger] v.settled[i]).host@ == name;
        assert(settled[i] == name);
        assert(names[1 + t + a + i] == name);
    }
}

/// A host with a fresh session is online. Otherwise a host that is being tried is being
/// checked, one that waits for another try is offline, with at least a second to go where the
/// time is known, one that only the user can mend is blocked, and any other is cached.
pub proof fn a_host_is_shown_as_it_was_reached(
    v: PickerView,
    host: Seq<char>,
    target: Seq<char>,
    now: u64,
)
    requires
        v.target_of(host) == Some(target),
        v.reconnect.dom().contains(target),
    ensures
        v.connectivity(host, true, now) is Online,
        v.reconnect[target].phase is Connecting ==> v.connectivity(host, false, now) is Checking,
        v.reconnect[target].phase is Blocked ==> v.connectivity(host, false, now) is Blocked,
        v.reconnect[target].phase is Cached || v.reconnect[target].phase is Online
            ==> v.connectivity(host, false, now) is Cached,
        v.reconnect[target].phase is Backoff ==> v.connectivity(host, false, now) is Offline,
        v.reconnect[target].phase is Backoff ==> (
        v.reconnect[target].next_attempt_at matches Some(at) ==> v.connectivity(host, false, now)
            == GroupConnectivity::Offline(
            Some(
                if at >= now + 2_000 {
                    ((at - now) / 1_000) as u64
                } else {
                    1
                },
            ),
        )),
{
}

} // verus!
