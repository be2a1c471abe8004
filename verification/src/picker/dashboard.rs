//! The rows of the dashboard: which sessions it shows, in what order and groups, and where
//! the cursor stands.

use vstd::prelude::*;

use crate::agents::observed_host;
use crate::cli::{activity_label, activity_word};
use crate::domain::{Activity, RuntimeOwner, Session};
use crate::order::{ranked, stable_sort, Ranked};
use crate::reconnect::HostPhase;
use crate::text::{
    contains, contains_text, lowercase, lowercase_all, lowercase_text, lowered, lt, owned, same,
    text_le, text_lt, text_lt_irreflexive, text_lt_total, text_lt_transitive, texts,
};
use crate::tmux::observed_host_text;

use super::{
    same_group, selection_view, DashboardGroupKey, DashboardRow, DashboardSection,
    DashboardSelection, GroupConnectivity, GroupKeyView, PickerApp, PickerView, SelectionView,
    SessionRef, ALL_HOSTS,
    DAY_SECONDS, WEEK_SECONDS,
};

verus! {

// ---- sections ----

/// An activity that keeps a session current.
pub open spec fn is_current(activity: Activity) -> bool {
    activity is Working || activity is WaitingApproval || activity is WaitingInput
        || activity is Failed
}

/// Whether an activity keeps a session current.
pub fn activity_is_current(activity: Activity) -> (r: bool)
    ensures
        r == is_current(activity),
{
    match activity {
        Activity::Working | Activity::WaitingApproval | Activity::WaitingInput
        | Activity::Failed => true,
        _ => false,
    }
}

/// How long ago a session was last used.
pub open spec fn age_of(session: Session, now: u64) -> u64 {
    if now < session.last_interaction_unix_seconds {
        0
    } else {
        (now - session.last_interaction_unix_seconds) as u64
    }
}

/// The part of the inventory to which a session belongs.
pub open spec fn section_for(
    session: Session,
    settled: bool,
    unread: bool,
    now: u64,
) -> DashboardSection {
    if settled {
        DashboardSection::Archive
    } else if is_current(session.activity) || unread {
        DashboardSection::Current
    } else if age_of(session, now) <= DAY_SECONDS {
        DashboardSection::LastDay
    } else if age_of(session, now) <= WEEK_SECONDS {
        DashboardSection::LastWeek
    } else {
        DashboardSection::Archive
    }
}

fn age(session: &Session, now: u64) -> (r: u64)
    ensures
        r == age_of(*session, now),
{
    if now < session.last_interaction_unix_seconds {
        0
    } else {
        now - session.last_interaction_unix_seconds
    }
}

/// The part of the inventory to which a session belongs.
pub fn dashboard_section(session: &Session, settled: bool, unread: bool, now: u64) -> (r:
    DashboardSection)
    ensures
        r == section_for(*session, settled, unread, now),
{
    if settled {
        return DashboardSection::Archive;
    }
    if activity_is_current(session.activity) || unread {
        return DashboardSection::Current;
    }
    let age: u64 = age(session, now);
    if age <= DAY_SECONDS {
        DashboardSection::LastDay
    } else if age <= WEEK_SECONDS {
        DashboardSection::LastWeek
    } else {
        DashboardSection::Archive
    }
}

// ---- search ----

/// The texts of a session in which a search looks.
pub open spec fn search_fields(session: Session) -> Seq<Seq<char>> {
    seq![
        session.title@,
        session.last_message@,
        session.cwd@,
        session.host@,
        session.source@,
        session.agent.name(),
        activity_word(session.activity),
        session.native_session_id@,
        match session.tmux {
            Some(binding) => binding.session@,
            None => Seq::empty(),
        },
    ]
}

/// One of the values contains the query.
pub open spec fn one_contains(values: Seq<Seq<char>>, query: Seq<char>) -> bool {
    exists|i: int| 0 <= i < values.len() && contains_text(#[trigger] values[i], query)
}

/// Whether one of the values contains the query.
pub fn any_contains(values: &Vec<String>, query: &str) -> (r: bool)
    ensures
        r == one_contains(texts(values@), query@),
{
    let ghost views = texts(values@);
    let mut i: usize = 0;
    while i < values.len()
        invariant
            i <= values@.len(),
            views == texts(values@),
            forall|j: int| 0 <= j < i ==> !contains_text(#[trigger] views[j], query@),
        decreases values@.len() - i,
    {
        assert(views[i as int] == values@[i as int]@);
        if contains(values[i].as_str(), query) {
            return true;
        }
        i += 1;
    }
    false
}

/// A session matches a query in lower case.
pub open spec fn matches_query(session: Session, query: Seq<char>) -> bool {
    query.len() == 0 || one_contains(lowered(search_fields(session)), query)
}

/// Whether a session matches a query in lower case.
pub fn session_matches(session: &Session, query: &str) -> (r: bool)
    ensures
        r == matches_query(*session, query@),
{
    if query.is_empty() {
        return true;
    }
    let tmux: &str = match &session.tmux {
        Some(binding) => binding.session.as_str(),
        None => "",
    };
    let fields: Vec<String> = owned(
        [
            session.title.as_str(),
            session.last_message.as_str(),
            session.cwd.as_str(),
            session.host.as_str(),
            session.source.as_str(),
            session.agent.as_str(),
            activity_label(session.activity),
            session.native_session_id.as_str(),
            tmux,
        ],
    );
    proof {
        reveal_strlit("");
        assert(tmux@ =~= search_fields(*session)[8]);
        assert(texts(fields@) =~= search_fields(*session));
    }
    any_contains(&lowercase_all(&fields), query)
}

// ---- order ----

/// How pressing an activity is.
pub open spec fn priority_of(activity: Activity) -> u8 {
    match activity {
        Activity::Working => 0,
        Activity::WaitingApproval | Activity::WaitingInput => 1,
        Activity::Failed => 2,
        Activity::Completed => 3,
        Activity::Unknown => 4,
    }
}

/// How pressing an activity is.
pub fn activity_priority(activity: Activity) -> (r: u8)
    ensures
        r == priority_of(activity),
{
    match activity {
        Activity::Working => 0,
        Activity::WaitingApproval | Activity::WaitingInput => 1,
        Activity::Failed => 2,
        Activity::Completed => 3,
        Activity::Unknown => 4,
    }
}

/// A session of the dashboard with what decides its place: the local host before others, the
/// hosts and the directories by name, unread sessions before read ones, the more pressing
/// before the less, the newer before the older, and else the identifier.
pub struct SortedRef {
    pub session_ref: SessionRef,
    pub remote: bool,
    pub host: String,
    pub cwd: String,
    pub read: bool,
    pub priority: u8,
    pub recency: u64,
    pub id: String,
}

impl Ranked for SortedRef {
    open spec fn at_most(self, other: Self) -> bool {
        if self.remote != other.remote {
            !self.remote
        } else if self.host@ != other.host@ {
            text_lt(self.host@, other.host@)
        } else if self.cwd@ != other.cwd@ {
            text_lt(self.cwd@, other.cwd@)
        } else if self.read != other.read {
            !self.read
        } else if self.priority != other.priority {
            self.priority < other.priority
        } else if self.recency != other.recency {
            self.recency > other.recency
        } else {
            text_le(self.id@, other.id@)
        }
    }

    proof fn at_most_total(a: Self, b: Self) {
        text_lt_total(a.host@, b.host@);
        text_lt_total(a.cwd@, b.cwd@);
        text_lt_total(a.id@, b.id@);
    }

    proof fn at_most_transitive(a: Self, b: Self, c: Self) {
        if text_lt(a.host@, b.host@) && text_lt(b.host@, c.host@) {
            text_lt_transitive(a.host@, b.host@, c.host@);
        }
        if text_lt(a.cwd@, b.cwd@) && text_lt(b.cwd@, c.cwd@) {
            text_lt_transitive(a.cwd@, b.cwd@, c.cwd@);
        }
        if text_lt(a.id@, b.id@) && text_lt(b.id@, c.id@) {
            text_lt_transitive(a.id@, b.id@, c.id@);
        }
        text_lt_irreflexive(a.host@);
        text_lt_irreflexive(a.cwd@);
        if a.host@ == c.host@ && text_lt(a.host@, b.host@) && text_lt(b.host@, c.host@) {
            assert(false);
        }
        if a.cwd@ == c.cwd@ && text_lt(a.cwd@, b.cwd@) && text_lt(b.cwd@, c.cwd@) {
            assert(false);
        }
    }

    fn is_at_most(&self, other: &Self) -> (r: bool) {
        if self.remote != other.remote {
            !self.remote
        } else if !same(self.host.as_str(), other.host.as_str()) {
            lt(self.host.as_str(), other.host.as_str())
        } else if !same(self.cwd.as_str(), other.cwd.as_str()) {
            lt(self.cwd.as_str(), other.cwd.as_str())
        } else if self.read != other.read {
            !self.read
        } else if self.priority != other.priority {
            self.priority < other.priority
        } else if self.recency != other.recency {
            self.recency > other.recency
        } else {
            same(self.id.as_str(), other.id.as_str()) || lt(self.id.as_str(), other.id.as_str())
        }
    }
}

// ---- rows ----

/// How many entries from the front are of a host.
pub open spec fn host_run(entries: Seq<SortedRef>, host: Seq<char>) -> nat
    decreases entries.len(),
{
    if entries.len() == 0 || entries[0].host@ != host {
        0
    } else {
        1 + host_run(entries.drop_first(), host)
    }
}

/// How many entries from the front are of a directory.
pub open spec fn cwd_run(entries: Seq<SortedRef>, cwd: Seq<char>) -> nat
    decreases entries.len(),
{
    if entries.len() == 0 || entries[0].cwd@ != cwd {
        0
    } else {
        1 + cwd_run(entries.drop_first(), cwd)
    }
}

/// The entries of a run are of its host, and the next one is not.
pub proof fn lemma_host_run(entries: Seq<SortedRef>, host: Seq<char>)
    ensures
        host_run(entries, host) <= entries.len(),
        entries.len() > 0 && entries[0].host@ == host ==> host_run(entries, host) >= 1,
        forall|i: int| 0 <= i < host_run(entries, host) ==> (#[trigger] entries[i]).host@ == host,
        host_run(entries, host) < entries.len() ==> entries[host_run(entries, host) as int].host@
            != host,
    decreases entries.len(),
{
    if entries.len() > 0 && entries[0].host@ == host {
        let rest = entries.drop_first();
        lemma_host_run(rest, host);
        assert forall|i: int| 0 <= i < host_run(entries, host) implies (#[trigger] entries[i]).host@
            == host by {
            if i > 0 {
                assert(entries[i] == rest[i - 1]);
            }
        }
    }
}

/// The entries of a run are of its directory, and the next one is not.
pub proof fn lemma_cwd_run(entries: Seq<SortedRef>, cwd: Seq<char>)
    ensures
        cwd_run(entries, cwd) <= entries.len(),
        entries.len() > 0 && entries[0].cwd@ == cwd ==> cwd_run(entries, cwd) >= 1,
        forall|i: int| 0 <= i < cwd_run(entries, cwd) ==> (#[trigger] entries[i]).cwd@ == cwd,
        cwd_run(entries, cwd) < entries.len() ==> entries[cwd_run(entries, cwd) as int].cwd@ != cwd,
    decreases entries.len(),
{
    if entries.len() > 0 && entries[0].cwd@ == cwd {
        let rest = entries.drop_first();
        lemma_cwd_run(rest, cwd);
        assert forall|i: int| 0 <= i < cwd_run(entries, cwd) implies (#[trigger] entries[i]).cwd@
            == cwd by {
            if i > 0 {
                assert(entries[i] == rest[i - 1]);
            }
        }
    }
}

/// The rows of sessions.
pub open spec fn session_rows(entries: Seq<SortedRef>) -> Seq<DashboardRow> {
    entries.map_values(|entry: SortedRef| DashboardRow::Session(entry.session_ref))
}

/// The group that a row heads.
pub open spec fn row_group(row: DashboardRow) -> Option<GroupKeyView> {
    match row {
        DashboardRow::Host { section, host, .. } => Some(
            GroupKeyView::Host { section, host: host@ },
        ),
        DashboardRow::Group { section, host, cwd, .. } => Some(
            GroupKeyView::Project { section, host: host@, cwd: cwd@ },
        ),
        _ => None,
    }
}

/// The group that a row heads.
pub fn row_group_key(row: &DashboardRow) -> (r: Option<DashboardGroupKey>)
    ensures
        r is Some <==> row_group(*row) is Some,
        r matches Some(key) ==> row_group(*row) == Some(key@),
{
    match row {
        DashboardRow::Host { section, host, .. } => Some(
            DashboardGroupKey::Host { section: *section, host: host.clone() },
        ),
        DashboardRow::Group { section, host, cwd, .. } => Some(
            DashboardGroupKey::Project { section: *section, host: host.clone(), cwd: cwd.clone() },
        ),
        _ => None,
    }
}

impl PickerView {
    /// The session is on the chosen host and matches the query.
    pub open spec fn shown(self, session: Session, query: Seq<char>) -> bool {
        (self.host_filter == ALL_HOSTS@ || session.host@ == self.host_filter) && matches_query(
            session,
            query,
        )
    }

    /// The active sessions as references.
    pub open spec fn active_refs(self) -> Seq<SessionRef> {
        Seq::new(self.active.len(), |i: int| SessionRef::Active(i as usize))
    }

    /// The settled sessions as references.
    pub open spec fn settled_refs(self) -> Seq<SessionRef> {
        Seq::new(self.settled.len(), |i: int| SessionRef::Settled(i as usize))
    }

    /// Every session of the inventory as a reference.
    pub open spec fn refs(self) -> Seq<SessionRef> {
        self.active_refs() + self.settled_refs()
    }

    /// The session's attention was not seen yet.
    pub open spec fn is_unread(self, session: Session) -> bool {
        self.unread_ids.contains(session.id@)
    }

    /// The part of the inventory to which a session belongs.
    pub open spec fn section_of(self, session_ref: SessionRef, now: u64) -> DashboardSection {
        let session = self.session_of(session_ref);
        section_for(session, session_ref is Settled, self.is_unread(session), now)
    }

    /// Whether the archive or the list above it shows a session.
    pub open spec fn lists(
        self,
        session_ref: SessionRef,
        query: Seq<char>,
        now: u64,
        archive: bool,
    ) -> bool {
        self.shown(self.session_of(session_ref), query) && (self.section_of(session_ref, now)
            is Archive) == archive
    }

    /// The sessions of the archive or of the list above it, in the order of the inventory.
    pub open spec fn listed(self, query: Seq<char>, now: u64, archive: bool) -> Seq<SessionRef> {
        self.refs().filter(|r: SessionRef| self.lists(r, query, now, archive))
    }

    /// A session with what decides its place.
    pub open spec fn sort_entry(self, session_ref: SessionRef) -> SortedRef {
        let session = self.session_of(session_ref);
        SortedRef {
            session_ref,
            remote: session.host@ != self.local_hostname,
            host: session.host,
            cwd: session.cwd,
            read: !self.is_unread(session),
            priority: priority_of(session.activity),
            recency: session.last_interaction_unix_seconds,
            id: session.id,
        }
    }

    /// The sessions of the archive or of the list above it, in the order of the dashboard.
    pub open spec fn sorted(self, query: Seq<char>, now: u64, archive: bool) -> Seq<SortedRef> {
        ranked(self.listed(query, now, archive).map_values(|r: SessionRef| self.sort_entry(r)))
    }

    /// What is known of one of the entries is of this run of the program.
    pub open spec fn any_fresh(self, entries: Seq<SortedRef>) -> bool {
        exists|i: int| 0 <= i < entries.len() && self.fresh_ids.contains(#[trigger] entries[i].id@)
    }

    /// The group of a directory is expanded.
    pub open spec fn project_expanded(
        self,
        first: SortedRef,
        section: DashboardSection,
        query_active: bool,
    ) -> bool {
        query_active || !self.collapsed_groups.contains(
            GroupKeyView::Project { section, host: first.host@, cwd: first.cwd@ },
        )
    }

    /// The row that heads a directory.
    pub open spec fn project_head(
        self,
        own: Seq<SortedRef>,
        section: DashboardSection,
        query_active: bool,
    ) -> DashboardRow {
        DashboardRow::Group {
            section,
            cwd: own[0].cwd,
            host: own[0].host,
            count: own.len() as usize,
            fresh: self.any_fresh(own),
            expanded: self.project_expanded(own[0], section, query_active),
        }
    }

    /// The rows of the directories of a host.
    pub open spec fn project_rows(
        self,
        entries: Seq<SortedRef>,
        section: DashboardSection,
        query_active: bool,
    ) -> Seq<DashboardRow>
        decreases entries.len(),
    {
        if entries.len() == 0 {
            Seq::empty()
        } else {
            let n = cwd_run(entries, entries[0].cwd@);
            let own = entries.take(n as int);
            proof {
                lemma_cwd_run(entries, entries[0].cwd@);
            }
            seq![self.project_head(own, section, query_active)] + (if self.project_expanded(
                entries[0],
                section,
                query_active,
            ) {
                session_rows(own)
            } else {
                Seq::empty()
            }) + self.project_rows(entries.skip(n as int), section, query_active)
        }
    }

    /// The group of a host is expanded.
    pub open spec fn host_expanded(
        self,
        first: SortedRef,
        section: DashboardSection,
        query_active: bool,
    ) -> bool {
        query_active || !self.collapsed_groups.contains(
            GroupKeyView::Host { section, host: first.host@ },
        )
    }

    /// The row that heads a host.
    pub open spec fn host_head(
        self,
        own: Seq<SortedRef>,
        section: DashboardSection,
        query_active: bool,
    ) -> DashboardRow {
        DashboardRow::Host {
            section,
            host: own[0].host,
            count: own.len() as usize,
            fresh: self.any_fresh(own),
            expanded: self.host_expanded(own[0], section, query_active),
        }
    }

    /// The rows of the hosts.
    pub open spec fn host_rows(
        self,
        entries: Seq<SortedRef>,
        section: DashboardSection,
        query_active: bool,
    ) -> Seq<DashboardRow>
        decreases entries.len(),
    {
        if entries.len() == 0 {
            Seq::empty()
        } else {
            let n = host_run(entries, entries[0].host@);
            let own = entries.take(n as int);
            proof {
                lemma_host_run(entries, entries[0].host@);
            }
            seq![self.host_head(own, section, query_active)] + (if self.host_expanded(
                entries[0],
                section,
                query_active,
            ) {
                self.project_rows(own, section, query_active)
            } else {
                Seq::empty()
            }) + self.host_rows(entries.skip(n as int), section, query_active)
        }
    }

    /// Whether the archive is expanded.
    pub open spec fn archive_expanded(self, query: Seq<char>, now: u64) -> bool {
        self.expanded_sections.archive || (query.len() > 0 && self.listed(query, now, true).len()
            > 0)
    }

    /// The rows of the dashboard: the hosts with their directories and sessions, and below
    /// them the archive.
    pub open spec fn dashboard(self, query: Seq<char>, now: u64) -> Seq<DashboardRow> {
        let expanded = self.archive_expanded(query, now);
        self.host_rows(
            self.sorted(query, now, false),
            DashboardSection::Current,
            query.len() > 0,
        ) + seq![
            DashboardRow::Section {
                section: DashboardSection::Archive,
                count: self.listed(query, now, true).len() as usize,
                expanded,
            },
        ] + (if expanded {
            self.host_rows(
                self.sorted(query, now, true),
                DashboardSection::Archive,
                query.len() > 0,
            )
        } else {
            Seq::empty()
        })
    }

    /// The cursor's place, where the rows are rebuilt and it should stand on the selection:
    /// there, or else on the first session, or else on the first row.
    pub open spec fn placed_cursor(
        self,
        rows: Seq<DashboardRow>,
        selection: Option<SelectionView>,
    ) -> usize {
        let found = match selection {
            Some(selection) => first_from(rows, self.selects(selection), 0),
            None => None,
        };
        match found {
            Some(i) => i,
            None => first_of(rows),
        }
    }

    /// The row is the selected one.
    pub open spec fn row_is(self, row: DashboardRow, selection: SelectionView) -> bool {
        match selection {
            SelectionView::Section(section) => row is Section && row->Section_section == section,
            SelectionView::Group(key) => row_group(row) == Some(key),
            SelectionView::Session(id) => row is Session && self.session_of(row->Session_0).id@
                == id,
        }
    }

    /// The row is the selected one.
    pub open spec fn selects(self, selection: SelectionView) -> spec_fn(DashboardRow) -> bool {
        |row: DashboardRow| self.row_is(row, selection)
    }

    /// The state after the rows were rebuilt for a query in lower case.
    pub open spec fn rebuilt_for(
        self,
        query: Seq<char>,
        selection: Option<SelectionView>,
        now: u64,
    ) -> PickerView {
        let rows = self.dashboard(query, now);
        PickerView { rows, selected_row: self.placed_cursor(rows, selection), ..self }
    }

    /// The state after the rows were rebuilt.
    pub open spec fn rebuilt(self, selection: Option<SelectionView>, now: u64) -> PickerView {
        self.rebuilt_for(lowercase_text(self.query), selection, now)
    }
}

// ---- positions ----

/// The first row from `i` on that has a property.
pub open spec fn first_from(
    rows: Seq<DashboardRow>,
    property: spec_fn(DashboardRow) -> bool,
    i: nat,
) -> Option<usize>
    decreases rows.len() - i,
{
    if i >= rows.len() {
        None
    } else if property(rows[i as int]) {
        Some(i as usize)
    } else {
        first_from(rows, property, i + 1)
    }
}

/// The last row before `n` that has a property.
pub open spec fn last_before(
    rows: Seq<DashboardRow>,
    property: spec_fn(DashboardRow) -> bool,
    n: nat,
) -> Option<usize>
    decreases n,
{
    if n == 0 {
        None
    } else if property(rows[n - 1]) {
        Some((n - 1) as usize)
    } else {
        last_before(rows, property, (n - 1) as nat)
    }
}

/// The row is one of a session.
pub open spec fn is_session_row() -> spec_fn(DashboardRow) -> bool {
    |row: DashboardRow| row is Session
}

/// The cursor can stand on the row.
pub open spec fn navigable(row: DashboardRow) -> bool {
    row is Section || row is Host || row is Group || row is Session
}

/// The cursor can stand on the row.
pub open spec fn is_navigable() -> spec_fn(DashboardRow) -> bool {
    |row: DashboardRow| navigable(row)
}

/// The first session, or else the first row.
pub open spec fn first_of(rows: Seq<DashboardRow>) -> usize {
    match first_from(rows, is_session_row(), 0) {
        Some(i) => i,
        None => match first_from(rows, is_navigable(), 0) {
            Some(i) => i,
            None => 0,
        },
    }
}

/// The last session, or else the last row.
pub open spec fn last_of(rows: Seq<DashboardRow>) -> usize {
    match last_before(rows, is_session_row(), rows.len()) {
        Some(i) => i,
        None => match last_before(rows, is_navigable(), rows.len()) {
            Some(i) => i,
            None => 0,
        },
    }
}

/// Whether the cursor can stand on a row.
pub fn is_navigable_row(row: &DashboardRow) -> (r: bool)
    ensures
        r == navigable(*row),
{
    match row {
        DashboardRow::Section { .. } | DashboardRow::Host { .. } | DashboardRow::Group { .. }
        | DashboardRow::Session(_) => true,
    }
}

fn is_session(row: &DashboardRow) -> (r: bool)
    ensures
        r == (*row is Session),
{
    match row {
        DashboardRow::Session(_) => true,
        _ => false,
    }
}

fn first_session(rows: &Vec<DashboardRow>) -> (r: Option<usize>)
    ensures
        r == first_from(rows@, is_session_row(), 0),
{
    let mut i: usize = 0;
    while i < rows.len()
        invariant
            i <= rows@.len(),
            first_from(rows@, is_session_row(), i as nat) == first_from(
                rows@,
                is_session_row(),
                0,
            ),
        decreases rows@.len() - i,
    {
        if is_session(&rows[i]) {
            return Some(i);
        }
        i += 1;
    }
    None
}

fn last_session(rows: &Vec<DashboardRow>) -> (r: Option<usize>)
    ensures
        r == last_before(rows@, is_session_row(), rows@.len()),
{
    let mut n: usize = rows.len();
    while n > 0
        invariant
            n <= rows@.len(),
            last_before(rows@, is_session_row(), n as nat) == last_before(
                rows@,
                is_session_row(),
                rows@.len(),
            ),
        decreases n,
    {
        if is_session(&rows[n - 1]) {
            return Some(n - 1);
        }
        n -= 1;
    }
    None
}

fn first_navigable(rows: &Vec<DashboardRow>, start: usize) -> (r: Option<usize>)
    ensures
        r == first_from(rows@, is_navigable(), start as nat),
{
    let mut i: usize = start;
    while i < rows.len()
        invariant
            first_from(rows@, is_navigable(), i as nat) == first_from(
                rows@,
                is_navigable(),
                start as nat,
            ),
        decreases rows@.len() - i,
    {
        if is_navigable_row(&rows[i]) {
            return Some(i);
        }
        i += 1;
    }
    None
}

fn last_navigable(rows: &Vec<DashboardRow>, end: usize) -> (r: Option<usize>)
    requires
        end <= rows@.len(),
    ensures
        r == last_before(rows@, is_navigable(), end as nat),
{
    let mut n: usize = end;
    while n > 0
        invariant
            n <= end <= rows@.len(),
            last_before(rows@, is_navigable(), n as nat) == last_before(
                rows@,
                is_navigable(),
                end as nat,
            ),
        decreases n,
    {
        if is_navigable_row(&rows[n - 1]) {
            return Some(n - 1);
        }
        n -= 1;
    }
    None
}

fn first_row_of(rows: &Vec<DashboardRow>) -> (r: usize)
    ensures
        r == first_of(rows@),
{
    match first_session(rows) {
        Some(i) => i,
        None => match first_navigable(rows, 0) {
            Some(i) => i,
            None => 0,
        },
    }
}

// ---- rebuilding ----

/// The sessions among the first `n` that are listed, with what decides their places.
spec fn listed_among(v: PickerView, query: Seq<char>, now: u64, archive: bool, n: int) -> Seq<
    SortedRef,
> {
    v.refs().take(n).filter(|r: SessionRef| v.lists(r, query, now, archive)).map_values(
        |r: SessionRef| v.sort_entry(r),
    )
}

proof fn lemma_listed_none(v: PickerView, query: Seq<char>, now: u64, archive: bool)
    ensures
        listed_among(v, query, now, archive, 0) == Seq::<SortedRef>::empty(),
{
    let keep = |r: SessionRef| v.lists(r, query, now, archive);
    assert(v.refs().take(0) =~= Seq::<SessionRef>::empty());
    reveal(Seq::filter);
    assert(v.refs().take(0).filter(keep) =~= Seq::<SessionRef>::empty());
    assert(listed_among(v, query, now, archive, 0) =~= Seq::<SortedRef>::empty());
}

proof fn lemma_listed_step(v: PickerView, query: Seq<char>, now: u64, archive: bool, i: int)
    requires
        0 <= i < v.refs().len(),
    ensures
        listed_among(v, query, now, archive, i + 1) == (if v.lists(
            v.refs()[i],
            query,
            now,
            archive,
        ) {
            listed_among(v, query, now, archive, i).push(v.sort_entry(v.refs()[i]))
        } else {
            listed_among(v, query, now, archive, i)
        }),
{
    let refs = v.refs();
    let keep = |r: SessionRef| v.lists(r, query, now, archive);
    let wrap = |r: SessionRef| v.sort_entry(r);
    assert(refs.take(i + 1) =~= refs.take(i).push(refs[i]));
    refs.take(i).lemma_filter_push(refs[i], keep);
    let before = refs.take(i).filter(keep);
    assert(before.push(refs[i]).map_values(wrap) =~= before.map_values(wrap).push(wrap(refs[i])));
}

proof fn lemma_listed_all(v: PickerView, query: Seq<char>, now: u64, archive: bool)
    ensures
        listed_among(v, query, now, archive, v.refs().len() as int) == v.listed(
            query,
            now,
            archive,
        ).map_values(|r: SessionRef| v.sort_entry(r)),
{
    assert(v.refs().take(v.refs().len() as int) =~= v.refs());
}

/// Every entry names a session of the inventory.
pub open spec fn entries_wf(v: PickerView, entries: Seq<SortedRef>) -> bool {
    forall|i: int| 0 <= i < entries.len() ==> v.has_ref((#[trigger] entries[i]).session_ref)
}

/// Every row of a session names one of the inventory.
pub open spec fn rows_wf(v: PickerView, rows: Seq<DashboardRow>) -> bool {
    forall|i: int|
        0 <= i < rows.len() && (#[trigger] rows[i]) is Session ==> v.has_ref(rows[i]->Session_0)
}

proof fn lemma_rows_wf_add(v: PickerView, a: Seq<DashboardRow>, b: Seq<DashboardRow>)
    requires
        rows_wf(v, a),
        rows_wf(v, b),
    ensures
        rows_wf(v, a + b),
{
    assert forall|i: int| 0 <= i < (a + b).len() && (#[trigger] (a + b)[i]) is Session implies v.has_ref(
        (a + b)[i]->Session_0,
    ) by {
        if i < a.len() {
            assert((a + b)[i] == a[i]);
        } else {
            assert((a + b)[i] == b[i - a.len()]);
        }
    }
}

proof fn lemma_project_rows_wf(
    v: PickerView,
    entries: Seq<SortedRef>,
    section: DashboardSection,
    query_active: bool,
)
    requires
        entries_wf(v, entries),
    ensures
        rows_wf(v, v.project_rows(entries, section, query_active)),
    decreases entries.len(),
{
    if entries.len() > 0 {
        let n = cwd_run(entries, entries[0].cwd@);
        lemma_cwd_run(entries, entries[0].cwd@);
        let own = entries.take(n as int);
        let rest = entries.skip(n as int);
        assert(entries_wf(v, rest)) by {
            assert forall|i: int| 0 <= i < rest.len() implies v.has_ref(
                (#[trigger] rest[i]).session_ref,
            ) by {
                assert(rest[i] == entries[n + i]);
            }
        }
        lemma_project_rows_wf(v, rest, section, query_active);
        let rows = session_rows(own);
        assert(rows_wf(v, rows)) by {
            assert forall|i: int| 0 <= i < rows.len() && (#[trigger] rows[i]) is Session implies v.has_ref(
                rows[i]->Session_0,
            ) by {
                assert(own[i] == entries[i]);
            }
        }
        let all = v.project_rows(entries, section, query_active);
        let head = seq![v.project_head(own, section, query_active)];
        let body = if v.project_expanded(entries[0], section, query_active) {
            rows
        } else {
            Seq::empty()
        };
        let tail = v.project_rows(rest, section, query_active);
        assert(all =~= head + body + tail);
        lemma_rows_wf_add(v, head, body);
        lemma_rows_wf_add(v, head + body, tail);
    }
}

proof fn lemma_host_rows_wf(
    v: PickerView,
    entries: Seq<SortedRef>,
    section: DashboardSection,
    query_active: bool,
)
    requires
        entries_wf(v, entries),
    ensures
        rows_wf(v, v.host_rows(entries, section, query_active)),
    decreases entries.len(),
{
    if entries.len() > 0 {
        let n = host_run(entries, entries[0].host@);
        lemma_host_run(entries, entries[0].host@);
        let own = entries.take(n as int);
        let rest = entries.skip(n as int);
        assert(entries_wf(v, rest)) by {
            assert forall|i: int| 0 <= i < rest.len() implies v.has_ref(
                (#[trigger] rest[i]).session_ref,
            ) by {
                assert(rest[i] == entries[n + i]);
            }
        }
        assert(entries_wf(v, own)) by {
            assert forall|i: int| 0 <= i < own.len() implies v.has_ref(
                (#[trigger] own[i]).session_ref,
            ) by {
                assert(own[i] == entries[i]);
            }
        }
        lemma_project_rows_wf(v, own, section, query_active);
        lemma_host_rows_wf(v, rest, section, query_active);
        let all = v.host_rows(entries, section, query_active);
        let head = seq![v.host_head(own, section, query_active)];
        let body = if v.host_expanded(entries[0], section, query_active) {
            v.project_rows(own, section, query_active)
        } else {
            Seq::empty()
        };
        let tail = v.host_rows(rest, section, query_active);
        assert(all =~= head + body + tail);
        lemma_rows_wf_add(v, head, body);
        lemma_rows_wf_add(v, head + body, tail);
    }
}

proof fn lemma_sorted_wf(v: PickerView, query: Seq<char>, now: u64, archive: bool)
    requires
        v.active.len() <= usize::MAX,
        v.settled.len() <= usize::MAX,
    ensures
        entries_wf(v, v.sorted(query, now, archive)),
{
    let keep = |r: SessionRef| v.lists(r, query, now, archive);
    let listed = v.listed(query, now, archive);
    let entries = listed.map_values(|r: SessionRef| v.sort_entry(r));
    let sorted = v.sorted(query, now, archive);
    assert forall|i: int| 0 <= i < sorted.len() implies v.has_ref(
        (#[trigger] sorted[i]).session_ref,
    ) by {
        crate::order::ranked_contains(entries, sorted[i]);
        assert(sorted.contains(sorted[i]));
        let k = choose|k: int| 0 <= k < entries.len() && entries[k] == sorted[i];
        let r = listed[k];
        assert(listed.contains(r));
        v.refs().lemma_filter_contains_rev(keep, r);
        let j = choose|j: int| 0 <= j < v.refs().len() && v.refs()[j] == r;
        assert(v.has_ref(v.refs()[j]));
    }
}

/// Rebuilding keeps the rows and the inventory together.
proof fn lemma_dashboard_wf(v: PickerView, query: Seq<char>, now: u64)
    requires
        v.active.len() <= usize::MAX,
        v.settled.len() <= usize::MAX,
    ensures
        rows_wf(v, v.dashboard(query, now)),
{
    lemma_sorted_wf(v, query, now, false);
    lemma_sorted_wf(v, query, now, true);
    let active = query.len() > 0;
    lemma_host_rows_wf(v, v.sorted(query, now, false), DashboardSection::Current, active);
    lemma_host_rows_wf(v, v.sorted(query, now, true), DashboardSection::Archive, active);
    let head = v.host_rows(v.sorted(query, now, false), DashboardSection::Current, active);
    let middle = seq![
        DashboardRow::Section {
            section: DashboardSection::Archive,
            count: v.listed(query, now, true).len() as usize,
            expanded: v.archive_expanded(query, now),
        },
    ];
    let tail = if v.archive_expanded(query, now) {
        v.host_rows(v.sorted(query, now, true), DashboardSection::Archive, active)
    } else {
        Seq::empty()
    };
    lemma_rows_wf_add(v, head, middle);
    lemma_rows_wf_add(v, head + middle, tail);
}

fn push_session_rows(
    entries: &Vec<SortedRef>,
    from: usize,
    to: usize,
    rows: &mut Vec<DashboardRow>,
)
    requires
        from <= to <= entries@.len(),
    ensures
        final(rows)@ == old(rows)@ + session_rows(entries@.subrange(from as int, to as int)),
{
    let ghost before = rows@;
    let mut i: usize = from;
    assert(rows@ =~= before + session_rows(entries@.subrange(from as int, from as int)));
    while i < to
        invariant
            from <= i <= to <= entries@.len(),
            rows@ == before + session_rows(entries@.subrange(from as int, i as int)),
        decreases to - i,
    {
        rows.push(DashboardRow::Session(entries[i].session_ref));
        i += 1;
        assert(rows@ =~= before + session_rows(entries@.subrange(from as int, i as int)));
    }
}

/// Where the run of a directory ends.
fn cwd_end(entries: &Vec<SortedRef>, from: usize, to: usize) -> (r: usize)
    requires
        from < to <= entries@.len(),
    ensures
        from < r <= to,
        r - from == cwd_run(
            entries@.subrange(from as int, to as int),
            entries@[from as int].cwd@,
        ),
{
    let ghost cwd = entries@[from as int].cwd@;
    let mut k: usize = from;
    while k < to && same(entries[k].cwd.as_str(), entries[from].cwd.as_str())
        invariant
            from <= k <= to <= entries@.len(),
            from < to,
            cwd == entries@[from as int].cwd@,
            cwd_run(entries@.subrange(from as int, to as int), cwd) == (k - from) + cwd_run(
                entries@.subrange(k as int, to as int),
                cwd,
            ),
        decreases to - k,
    {
        assert(entries@.subrange(k as int, to as int).drop_first() =~= entries@.subrange(
            k + 1,
            to as int,
        ));
        k += 1;
    }
    proof {
        lemma_cwd_run(entries@.subrange(from as int, to as int), cwd);
        assert(entries@.subrange(from as int, to as int)[0] == entries@[from as int]);
    }
    k
}

/// Where the run of a host ends.
fn host_end(entries: &Vec<SortedRef>, from: usize, to: usize) -> (r: usize)
    requires
        from < to <= entries@.len(),
    ensures
        from < r <= to,
        r - from == host_run(
            entries@.subrange(from as int, to as int),
            entries@[from as int].host@,
        ),
{
    let ghost host = entries@[from as int].host@;
    let mut k: usize = from;
    while k < to && same(entries[k].host.as_str(), entries[from].host.as_str())
        invariant
            from <= k <= to <= entries@.len(),
            from < to,
            host == entries@[from as int].host@,
            host_run(entries@.subrange(from as int, to as int), host) == (k - from) + host_run(
                entries@.subrange(k as int, to as int),
                host,
            ),
        decreases to - k,
    {
        assert(entries@.subrange(k as int, to as int).drop_first() =~= entries@.subrange(
            k + 1,
            to as int,
        ));
        k += 1;
    }
    proof {
        lemma_host_run(entries@.subrange(from as int, to as int), host);
        assert(entries@.subrange(from as int, to as int)[0] == entries@[from as int]);
    }
    k
}

proof fn lemma_project_rows_step(
    v: PickerView,
    entries: Seq<SortedRef>,
    from: int,
    end: int,
    to: int,
    section: DashboardSection,
    query_active: bool,
)
    requires
        0 <= from < end <= to <= entries.len(),
        end - from == cwd_run(entries.subrange(from, to), entries[from].cwd@),
    ensures
        v.project_rows(entries.subrange(from, to), section, query_active) == seq![
            v.project_head(entries.subrange(from, end), section, query_active),
        ] + (if v.project_expanded(entries[from], section, query_active) {
            session_rows(entries.subrange(from, end))
        } else {
            Seq::empty()
        }) + v.project_rows(entries.subrange(end, to), section, query_active),
{
    let rest = entries.subrange(from, to);
    assert(rest[0] == entries[from]);
    assert(rest.take(end - from) =~= entries.subrange(from, end));
    assert(rest.skip(end - from) =~= entries.subrange(end, to));
}

/// A head and its body were appended, and the tail is still to come.
proof fn lemma_rows_appended(
    before: Seq<DashboardRow>,
    head: DashboardRow,
    body: Seq<DashboardRow>,
    tail: Seq<DashboardRow>,
    after: Seq<DashboardRow>,
)
    requires
        after == before.push(head) + body,
    ensures
        after + tail == before + (seq![head] + body + tail),
{
    assert(after + tail =~= before + (seq![head] + body + tail));
}

proof fn lemma_host_rows_step(
    v: PickerView,
    entries: Seq<SortedRef>,
    from: int,
    end: int,
    to: int,
    section: DashboardSection,
    query_active: bool,
)
    requires
        0 <= from < end <= to <= entries.len(),
        end - from == host_run(entries.subrange(from, to), entries[from].host@),
    ensures
        v.host_rows(entries.subrange(from, to), section, query_active) == seq![
            v.host_head(entries.subrange(from, end), section, query_active),
        ] + (if v.host_expanded(entries[from], section, query_active) {
            v.project_rows(entries.subrange(from, end), section, query_active)
        } else {
            Seq::empty()
        }) + v.host_rows(entries.subrange(end, to), section, query_active),
{
    let rest = entries.subrange(from, to);
    assert(rest[0] == entries[from]);
    assert(rest.take(end - from) =~= entries.subrange(from, end));
    assert(rest.skip(end - from) =~= entries.subrange(end, to));
}

impl PickerApp {
    /// The session of a reference.
    pub fn session_for_ref(&self, session_ref: SessionRef) -> (r: &Session)
        requires
            self@.has_ref(session_ref),
        ensures
            *r == self@.session_of(session_ref),
    {
        match session_ref {
            SessionRef::Active(i) => &self.active[i],
            SessionRef::Settled(i) => &self.settled[i],
        }
    }

    fn lists(&self, session_ref: SessionRef, query: &str, now: u64, archive: bool) -> (r: bool)
        requires
            self@.has_ref(session_ref),
        ensures
            r == self@.lists(session_ref, query@, now, archive),
    {
        let session: &Session = self.session_for_ref(session_ref);
        let settled: bool = match session_ref {
            SessionRef::Settled(_) => true,
            SessionRef::Active(_) => false,
        };
        let chosen: bool = same(self.host_filter.as_str(), ALL_HOSTS) || same(
            session.host.as_str(),
            self.host_filter.as_str(),
        );
        if !chosen || !session_matches(session, query) {
            return false;
        }
        let unread: bool = self.unread_ids.contains(session.id.as_str());
        let archived: bool = match dashboard_section(session, settled, unread, now) {
            DashboardSection::Archive => true,
            _ => false,
        };
        archived == archive
    }

    fn sort_entry(&self, session_ref: SessionRef) -> (r: SortedRef)
        requires
            self@.has_ref(session_ref),
        ensures
            r == self@.sort_entry(session_ref),
    {
        let session: &Session = self.session_for_ref(session_ref);
        SortedRef {
            session_ref,
            remote: !same(session.host.as_str(), self.local_hostname.as_str()),
            host: session.host.clone(),
            cwd: session.cwd.clone(),
            read: !self.unread_ids.contains(session.id.as_str()),
            priority: activity_priority(session.activity),
            recency: session.last_interaction_unix_seconds,
            id: session.id.clone(),
        }
    }

    fn listed_entries(&self, query: &str, now: u64, archive: bool) -> (r: Vec<SortedRef>)
        ensures
            r@ == self@.listed(query@, now, archive).map_values(
                |r: SessionRef| self@.sort_entry(r),
            ),
    {
        let ghost v = self@;
        let mut r: Vec<SortedRef> = Vec::new();
        let mut i: usize = 0;
        proof {
            lemma_listed_none(v, query@, now, archive);
        }
        while i < self.active.len()
            invariant
                v == self@,
                i <= self.active@.len(),
                r@ == listed_among(v, query@, now, archive, i as int),
            decreases self.active@.len() - i,
        {
            let session_ref: SessionRef = SessionRef::Active(i);
            proof {
                lemma_listed_step(v, query@, now, archive, i as int);
                assert(v.refs()[i as int] == session_ref);
            }
            if self.lists(session_ref, query, now, archive) {
                r.push(self.sort_entry(session_ref));
            }
            i += 1;
        }
        let mut j: usize = 0;
        while j < self.settled.len()
            invariant
                v == self@,
                j <= self.settled@.len(),
                r@ == listed_among(v, query@, now, archive, self.active@.len() + j),
            decreases self.settled@.len() - j,
        {
            let session_ref: SessionRef = SessionRef::Settled(j);
            proof {
                lemma_listed_step(v, query@, now, archive, self.active@.len() + j);
                assert(v.refs()[self.active@.len() + j] == session_ref);
            }
            if self.lists(session_ref, query, now, archive) {
                r.push(self.sort_entry(session_ref));
            }
            j += 1;
        }
        proof {
            lemma_listed_all(v, query@, now, archive);
        }
        r
    }

    fn any_fresh(&self, entries: &Vec<SortedRef>, from: usize, to: usize) -> (r: bool)
        requires
            from <= to <= entries@.len(),
        ensures
            r == self@.any_fresh(entries@.subrange(from as int, to as int)),
    {
        let ghost own = entries@.subrange(from as int, to as int);
        let mut i: usize = from;
        while i < to
            invariant
                from <= i <= to <= entries@.len(),
                own == entries@.subrange(from as int, to as int),
                forall|j: int|
                    0 <= j < i - from ==> !self@.fresh_ids.contains(#[trigger] own[j].id@),
            decreases to - i,
        {
            assert(own[i - from] == entries@[i as int]);
            if self.fresh_ids.contains(entries[i].id.as_str()) {
                return true;
            }
            i += 1;
        }
        false
    }

    fn project_expanded(
        &self,
        first: &SortedRef,
        section: DashboardSection,
        query_active: bool,
    ) -> (r: bool)
        ensures
            r == self@.project_expanded(*first, section, query_active),
    {
        let key = DashboardGroupKey::Project {
            section,
            host: first.host.clone(),
            cwd: first.cwd.clone(),
        };
        query_active || !self.collapsed_groups.contains(&key)
    }

    fn project_head(
        &self,
        entries: &Vec<SortedRef>,
        from: usize,
        to: usize,
        section: DashboardSection,
        query_active: bool,
    ) -> (r: DashboardRow)
        requires
            from < to <= entries@.len(),
        ensures
            r == self@.project_head(
                entries@.subrange(from as int, to as int),
                section,
                query_active,
            ),
    {
        assert(entries@.subrange(from as int, to as int)[0] == entries@[from as int]);
        let first: &SortedRef = &entries[from];
        DashboardRow::Group {
            section,
            cwd: first.cwd.clone(),
            host: first.host.clone(),
            count: to - from,
            fresh: self.any_fresh(entries, from, to),
            expanded: self.project_expanded(first, section, query_active),
        }
    }

    fn host_expanded(
        &self,
        first: &SortedRef,
        section: DashboardSection,
        query_active: bool,
    ) -> (r: bool)
        ensures
            r == self@.host_expanded(*first, section, query_active),
    {
        let key = DashboardGroupKey::Host { section, host: first.host.clone() };
        query_active || !self.collapsed_groups.contains(&key)
    }

    fn host_head(
        &self,
        entries: &Vec<SortedRef>,
        from: usize,
        to: usize,
        section: DashboardSection,
        query_active: bool,
    ) -> (r: DashboardRow)
        requires
            from < to <= entries@.len(),
        ensures
            r == self@.host_head(entries@.subrange(from as int, to as int), section, query_active),
    {
        assert(entries@.subrange(from as int, to as int)[0] == entries@[from as int]);
        let first: &SortedRef = &entries[from];
        DashboardRow::Host {
            section,
            host: first.host.clone(),
            count: to - from,
            fresh: self.any_fresh(entries, from, to),
            expanded: self.host_expanded(first, section, query_active),
        }
    }

    fn push_project_rows(
        &self,
        entries: &Vec<SortedRef>,
        from: usize,
        to: usize,
        section: DashboardSection,
        query_active: bool,
        rows: &mut Vec<DashboardRow>,
    )
        requires
            from <= to <= entries@.len(),
        ensures
            final(rows)@ == old(rows)@ + self@.project_rows(
                entries@.subrange(from as int, to as int),
                section,
                query_active,
            ),
    {
        let ghost v = self@;
        let ghost before = rows@;
        let ghost goal = before + v.project_rows(
            entries@.subrange(from as int, to as int),
            section,
            query_active,
        );
        let mut i: usize = from;
        while i < to
            invariant
                v == self@,
                from <= i <= to <= entries@.len(),
                goal == rows@ + v.project_rows(
                    entries@.subrange(i as int, to as int),
                    section,
                    query_active,
                ),
            decreases to - i,
        {
            let end: usize = cwd_end(entries, i, to);
            let expanded: bool = self.project_expanded(&entries[i], section, query_active);
            let ghost sofar = rows@;
            rows.push(self.project_head(entries, i, end, section, query_active));
            if expanded {
                push_session_rows(entries, i, end, rows);
            }
            proof {
                let own = entries@.subrange(i as int, end as int);
                let body = if expanded {
                    session_rows(own)
                } else {
                    Seq::empty()
                };
                lemma_project_rows_step(
                    v,
                    entries@,
                    i as int,
                    end as int,
                    to as int,
                    section,
                    query_active,
                );
                lemma_rows_appended(
                    sofar,
                    v.project_head(own, section, query_active),
                    body,
                    v.project_rows(
                        entries@.subrange(end as int, to as int),
                        section,
                        query_active,
                    ),
                    rows@,
                );
            }
            i = end;
        }
        assert(entries@.subrange(i as int, to as int).len() == 0);
        assert(rows@ =~= goal);
    }

    fn push_host_rows(
        &self,
        entries: &Vec<SortedRef>,
        section: DashboardSection,
        query_active: bool,
        rows: &mut Vec<DashboardRow>,
    )
        ensures
            final(rows)@ == old(rows)@ + self@.host_rows(entries@, section, query_active),
    {
        let ghost v = self@;
        let ghost before = rows@;
        let ghost goal = before + v.host_rows(entries@, section, query_active);
        let to: usize = entries.len();
        let mut i: usize = 0;
        assert(entries@.subrange(0, to as int) =~= entries@);
        while i < to
            invariant
                v == self@,
                i <= to == entries@.len(),
                goal == rows@ + v.host_rows(
                    entries@.subrange(i as int, to as int),
                    section,
                    query_active,
                ),
            decreases to - i,
        {
            let end: usize = host_end(entries, i, to);
            let expanded: bool = self.host_expanded(&entries[i], section, query_active);
            let ghost sofar = rows@;
            rows.push(self.host_head(entries, i, end, section, query_active));
            if expanded {
                self.push_project_rows(entries, i, end, section, query_active, rows);
            }
            proof {
                let own = entries@.subrange(i as int, end as int);
                let body = if expanded {
                    v.project_rows(own, section, query_active)
                } else {
                    Seq::empty()
                };
                lemma_host_rows_step(
                    v,
                    entries@,
                    i as int,
                    end as int,
                    to as int,
                    section,
                    query_active,
                );
                lemma_rows_appended(
                    sofar,
                    v.host_head(own, section, query_active),
                    body,
                    v.host_rows(
                        entries@.subrange(end as int, to as int),
                        section,
                        query_active,
                    ),
                    rows@,
                );
            }
            i = end;
        }
        assert(entries@.subrange(i as int, to as int).len() == 0);
        assert(rows@ =~= goal);
    }

    fn build_rows(&self, query: &str, now: u64) -> (r: Vec<DashboardRow>)
        ensures
            r@ == self@.dashboard(query@, now),
            rows_wf(self@, r@),
    {
        let ghost v = self@;
        let query_active: bool = !query.is_empty();
        let mut rows: Vec<DashboardRow> = Vec::new();
        let listed: Vec<SortedRef> = stable_sort(self.listed_entries(query, now, false));
        self.push_host_rows(&listed, DashboardSection::Current, query_active, &mut rows);
        let archive: Vec<SortedRef> = self.listed_entries(query, now, true);
        let count: usize = archive.len();
        let expanded: bool = self.expanded_sections.contains(DashboardSection::Archive) || (
        query_active && count > 0);
        rows.push(
            DashboardRow::Section { section: DashboardSection::Archive, count, expanded },
        );
        if expanded {
            let archive: Vec<SortedRef> = stable_sort(archive);
            self.push_host_rows(&archive, DashboardSection::Archive, query_active, &mut rows);
        }
        proof {
            assert(rows@ =~= v.dashboard(query@, now));
            assert(v.active.len() == self.active.len());
            assert(v.settled.len() == self.settled.len());
            lemma_dashboard_wf(v, query@, now);
        }
        rows
    }

    fn row_is(&self, row: &DashboardRow, selection: &DashboardSelection) -> (r: bool)
        requires
            *row is Session ==> self@.has_ref(row->Session_0),
        ensures
            r == self@.row_is(*row, selection@),
    {
        match selection {
            DashboardSelection::Section(section) => match row {
                DashboardRow::Section { section: candidate, .. } => *candidate == *section,
                _ => false,
            },
            DashboardSelection::Group(group) => match row_group_key(row) {
                Some(key) => same_group(&key, group),
                None => false,
            },
            DashboardSelection::Session(id) => match row {
                DashboardRow::Session(session_ref) => same(
                    self.session_for_ref(*session_ref).id.as_str(),
                    id.as_str(),
                ),
                _ => false,
            },
        }
    }

    fn place_cursor(&self, rows: &Vec<DashboardRow>, selection: &Option<DashboardSelection>) -> (r:
        usize)
        requires
            rows_wf(self@, rows@),
        ensures
            r == self@.placed_cursor(rows@, selection_view(*selection)),
    {
        if let Some(wanted) = selection {
            let ghost property = self@.selects(wanted@);
            let mut i: usize = 0;
            while i < rows.len()
                invariant
                    i <= rows@.len(),
                    rows_wf(self@, rows@),
                    selection_view(*selection) == Some(wanted@),
                    property == self@.selects(wanted@),
                    first_from(rows@, property, i as nat) == first_from(rows@, property, 0),
                decreases rows@.len() - i,
            {
                if self.row_is(&rows[i], wanted) {
                    return i;
                }
                i += 1;
            }
        }
        first_row_of(rows)
    }

    /// Rebuilds the rows for a query in lower case, and puts the cursor on the selection
    /// where it is still shown.
    pub fn rebuild_rows_for(
        &mut self,
        query: &str,
        selection: Option<DashboardSelection>,
        now: u64,
    )
        ensures
            final(self)@ == old(self)@.rebuilt_for(query@, selection_view(selection), now),
            final(self)@.wf(),
    {
        let rows: Vec<DashboardRow> = self.build_rows(query, now);
        let cursor: usize = self.place_cursor(&rows, &selection);
        self.rows = rows;
        self.selected_row = cursor;
    }

    /// Rebuilds the rows, and puts the cursor on the selection where it is still shown.
    pub fn rebuild_rows_selecting(&mut self, selection: Option<DashboardSelection>, now: u64)
        ensures
            final(self)@ == old(self)@.rebuilt(selection_view(selection), now),
            final(self)@.wf(),
    {
        let query: String = lowercase(self.query.as_str());
        self.rebuild_rows_for(query.as_str(), selection, now);
    }
}

// ---- the cursor ----

impl PickerView {
    /// What the cursor stands on.
    pub open spec fn selection(self) -> Option<SelectionView> {
        match self.current_row() {
            Some(DashboardRow::Section { section, .. }) => Some(SelectionView::Section(section)),
            Some(DashboardRow::Session(session_ref)) => Some(
                SelectionView::Session(self.session_of(session_ref).id@),
            ),
            Some(row) => match row_group(row) {
                Some(key) => Some(SelectionView::Group(key)),
                None => None,
            },
            None => None,
        }
    }

    /// The session under the cursor.
    pub open spec fn chosen_session(self) -> Option<Session> {
        match self.current_row() {
            Some(DashboardRow::Session(session_ref)) => Some(self.session_of(session_ref)),
            _ => None,
        }
    }

    /// The group under the cursor.
    pub open spec fn chosen_group(self) -> Option<GroupKeyView> {
        match self.current_row() {
            Some(row) => row_group(row),
            None => None,
        }
    }

    /// The row that the next one is.
    pub open spec fn next_row(self) -> usize {
        match first_from(self.rows, is_navigable(), (self.selected_row + 1) as nat) {
            Some(i) => i,
            None => self.selected_row,
        }
    }

    /// The row that the one before is.
    pub open spec fn previous_row(self) -> usize {
        let end: nat = if self.selected_row < self.rows.len() {
            self.selected_row as nat
        } else {
            self.rows.len()
        };
        match last_before(self.rows, is_navigable(), end) {
            Some(i) => i,
            None => self.selected_row,
        }
    }

    /// How many rows are sessions.
    pub open spec fn visible_sessions(self) -> nat {
        self.rows.filter(is_session_row()).len()
    }
}

impl PickerApp {
    /// Rebuilds the rows, and leaves the cursor on what it stood on where that is still shown.
    pub fn rebuild_rows(&mut self, now: u64)
        requires
            old(self)@.wf(),
        ensures
            final(self)@ == old(self)@.rebuilt(old(self)@.selection(), now),
            final(self)@.wf(),
    {
        let selection: Option<DashboardSelection> = self.selected_selection();
        self.rebuild_rows_selecting(selection, now);
    }

    /// The part of the inventory under the cursor.
    pub fn selected_section(&self) -> (r: Option<DashboardSection>)
        ensures
            r == match self@.current_row() {
                Some(DashboardRow::Section { section, .. }) => Some(section),
                _ => None,
            },
    {
        if self.selected_row < self.rows.len() {
            match &self.rows[self.selected_row] {
                DashboardRow::Section { section, .. } => Some(*section),
                _ => None,
            }
        } else {
            None
        }
    }

    /// What the cursor stands on.
    pub fn selected_selection(&self) -> (r: Option<DashboardSelection>)
        requires
            self@.wf(),
        ensures
            selection_view(r) == self@.selection(),
    {
        if self.selected_row >= self.rows.len() {
            return None;
        }
        let row: &DashboardRow = &self.rows[self.selected_row];
        match row {
            DashboardRow::Section { section, .. } => Some(DashboardSelection::Section(*section)),
            DashboardRow::Session(session_ref) => Some(
                DashboardSelection::Session(self.session_for_ref(*session_ref).id.clone()),
            ),
            _ => match row_group_key(row) {
                Some(key) => Some(DashboardSelection::Group(key)),
                None => None,
            },
        }
    }

    /// The group under the cursor.
    pub fn selected_group_key(&self) -> (r: Option<DashboardGroupKey>)
        ensures
            r is Some <==> self@.chosen_group() is Some,
            r matches Some(key) ==> self@.chosen_group() == Some(key@),
    {
        if self.selected_row < self.rows.len() {
            row_group_key(&self.rows[self.selected_row])
        } else {
            None
        }
    }

    /// The session under the cursor.
    pub fn selected_session(&self) -> (r: Option<&Session>)
        requires
            self@.wf(),
        ensures
            r is Some <==> self@.chosen_session() is Some,
            r matches Some(session) ==> self@.chosen_session() == Some(*session),
    {
        if self.selected_row < self.rows.len() {
            match &self.rows[self.selected_row] {
                DashboardRow::Session(session_ref) => Some(self.session_for_ref(*session_ref)),
                _ => None,
            }
        } else {
            None
        }
    }

    /// Puts the cursor on the first session.
    pub fn select_first(&mut self)
        ensures
            final(self)@ == (PickerView { selected_row: first_of(old(self)@.rows), ..old(self)@ }),
    {
        self.selected_row = first_row_of(&self.rows);
    }

    /// Puts the cursor on the last session.
    pub fn select_last(&mut self)
        ensures
            final(self)@ == (PickerView { selected_row: last_of(old(self)@.rows), ..old(self)@ }),
    {
        self.selected_row = match last_session(&self.rows) {
            Some(i) => i,
            None => match last_navigable(&self.rows, self.rows.len()) {
                Some(i) => i,
                None => 0,
            },
        };
    }

    /// Moves the cursor down.
    pub fn select_next(&mut self)
        ensures
            final(self)@ == (PickerView { selected_row: old(self)@.next_row(), ..old(self)@ }),
    {
        if self.selected_row < self.rows.len() {
            if let Some(i) = first_navigable(&self.rows, self.selected_row + 1) {
                self.selected_row = i;
            }
        }
    }

    /// Moves the cursor up.
    pub fn select_previous(&mut self)
        ensures
            final(self)@ == (PickerView { selected_row: old(self)@.previous_row(), ..old(self)@ }),
    {
        let end: usize = if self.selected_row < self.rows.len() {
            self.selected_row
        } else {
            self.rows.len()
        };
        if let Some(i) = last_navigable(&self.rows, end) {
            self.selected_row = i;
        }
    }

    /// How many sessions are shown.
    pub fn visible_session_count(&self) -> (r: usize)
        ensures
            r == self@.visible_sessions(),
    {
        let ghost keep = is_session_row();
        let mut n: usize = 0;
        let mut i: usize = 0;
        proof {
            reveal(Seq::filter);
            assert(self.rows@.take(0).filter(keep) =~= Seq::<DashboardRow>::empty());
        }
        while i < self.rows.len()
            invariant
                i <= self.rows@.len(),
                keep == is_session_row(),
                n == self.rows@.take(i as int).filter(keep).len(),
                n <= i,
            decreases self.rows@.len() - i,
        {
            proof {
                let row = self.rows@[i as int];
                assert(self.rows@.take(i + 1) =~= self.rows@.take(i as int).push(row));
                self.rows@.take(i as int).lemma_filter_push(row, keep);
            }
            if is_session(&self.rows[i]) {
                n += 1;
            }
            i += 1;
        }
        assert(self.rows@.take(i as int) =~= self.rows@);
        n
    }
}

// ---- counts ----

/// How many sessions each part of the inventory counts.
#[derive(Clone, Copy, Debug, Eq, PartialEq, Structural)]
pub struct SectionCounts {
    pub current: usize,
    pub last_day: usize,
    pub last_week: usize,
    pub archive: usize,
}

impl SectionCounts {
    /// The count of a part.
    pub open spec fn of(self, section: DashboardSection) -> usize {
        match section {
            DashboardSection::Current => self.current,
            DashboardSection::LastDay => self.last_day,
            DashboardSection::LastWeek => self.last_week,
            DashboardSection::Archive => self.archive,
        }
    }

    /// The count of a part.
    pub fn get(&self, section: DashboardSection) -> (r: usize)
        ensures
            r == self.of(section),
    {
        match section {
            DashboardSection::Current => self.current,
            DashboardSection::LastDay => self.last_day,
            DashboardSection::LastWeek => self.last_week,
            DashboardSection::Archive => self.archive,
        }
    }

    /// Whether no part counts a session.
    pub fn is_empty(&self) -> (r: bool)
        ensures
            r == forall|section: DashboardSection| self.of(section) == 0,
    {
        let r: bool = self.current == 0 && self.last_day == 0 && self.last_week == 0
            && self.archive == 0;
        proof {
            assert(self.of(DashboardSection::Current) == self.current);
            assert(self.of(DashboardSection::LastDay) == self.last_day);
            assert(self.of(DashboardSection::LastWeek) == self.last_week);
            assert(self.of(DashboardSection::Archive) == self.archive);
        }
        r
    }
}

/// A count as far as it can be held.
pub open spec fn capped(n: nat) -> usize {
    if n <= usize::MAX {
        n as usize
    } else {
        usize::MAX
    }
}

impl PickerView {
    /// A part counts a session. The parts overlap: a session that is live, or that was used
    /// of late, is counted there whichever part lists it.
    pub open spec fn counts(
        self,
        session_ref: SessionRef,
        section: DashboardSection,
        query: Seq<char>,
        now: u64,
    ) -> bool {
        let session = self.session_of(session_ref);
        self.shown(session, query) && match section {
            DashboardSection::Current => !(session.runtime is Resumable) || self.section_of(
                session_ref,
                now,
            ) is Current,
            DashboardSection::LastDay => age_of(session, now) <= DAY_SECONDS,
            DashboardSection::LastWeek => age_of(session, now) <= WEEK_SECONDS,
            DashboardSection::Archive => self.section_of(session_ref, now) is Archive,
        }
    }

    /// How many sessions a part counts.
    pub open spec fn section_count(
        self,
        section: DashboardSection,
        query: Seq<char>,
        now: u64,
    ) -> nat {
        self.refs().filter(|r: SessionRef| self.counts(r, section, query, now)).len()
    }
}

spec fn counted_among(
    v: PickerView,
    section: DashboardSection,
    query: Seq<char>,
    now: u64,
    n: int,
) -> nat {
    v.refs().take(n).filter(|r: SessionRef| v.counts(r, section, query, now)).len()
}

proof fn lemma_counted_step(
    v: PickerView,
    section: DashboardSection,
    query: Seq<char>,
    now: u64,
    i: int,
)
    requires
        0 <= i < v.refs().len(),
    ensures
        counted_among(v, section, query, now, i + 1) == counted_among(v, section, query, now, i)
            + if v.counts(v.refs()[i], section, query, now) {
            1nat
        } else {
            0nat
        },
{
    let refs = v.refs();
    assert(refs.take(i + 1) =~= refs.take(i).push(refs[i]));
    refs.take(i).lemma_filter_push(
        refs[i],
        |r: SessionRef| v.counts(r, section, query, now),
    );
}

impl PickerApp {
    fn counts(
        &self,
        session_ref: SessionRef,
        section: DashboardSection,
        query: &str,
        now: u64,
    ) -> (r: bool)
        requires
            self@.has_ref(session_ref),
        ensures
            r == self@.counts(session_ref, section, query@, now),
    {
        let session: &Session = self.session_for_ref(session_ref);
        let settled: bool = match session_ref {
            SessionRef::Settled(_) => true,
            SessionRef::Active(_) => false,
        };
        let chosen: bool = same(self.host_filter.as_str(), ALL_HOSTS) || same(
            session.host.as_str(),
            self.host_filter.as_str(),
        );
        if !chosen || !session_matches(session, query) {
            return false;
        }
        let unread: bool = self.unread_ids.contains(session.id.as_str());
        let own: DashboardSection = dashboard_section(session, settled, unread, now);
        match section {
            DashboardSection::Current => session.runtime != RuntimeOwner::Resumable || own
                == DashboardSection::Current,
            DashboardSection::LastDay => age(session, now) <= DAY_SECONDS,
            DashboardSection::LastWeek => age(session, now) <= WEEK_SECONDS,
            DashboardSection::Archive => own == DashboardSection::Archive,
        }
    }

    fn section_count(&self, section: DashboardSection, query: &str, now: u64) -> (r: usize)
        ensures
            r == capped(self@.section_count(section, query@, now)),
    {
        let ghost v = self@;
        let mut n: usize = 0;
        let mut i: usize = 0;
        proof {
            reveal(Seq::filter);
            assert(v.refs().take(0) =~= Seq::<SessionRef>::empty());
        }
        while i < self.active.len()
            invariant
                v == self@,
                i <= self.active@.len(),
                n == capped(counted_among(v, section, query@, now, i as int)),
            decreases self.active@.len() - i,
        {
            let session_ref: SessionRef = SessionRef::Active(i);
            proof {
                lemma_counted_step(v, section, query@, now, i as int);
                assert(v.refs()[i as int] == session_ref);
            }
            if self.counts(session_ref, section, query, now) {
                n = n.saturating_add(1);
            }
            i += 1;
        }
        let mut j: usize = 0;
        while j < self.settled.len()
            invariant
                v == self@,
                j <= self.settled@.len(),
                n == capped(counted_among(v, section, query@, now, self.active@.len() + j)),
            decreases self.settled@.len() - j,
        {
            let session_ref: SessionRef = SessionRef::Settled(j);
            proof {
                lemma_counted_step(v, section, query@, now, self.active@.len() + j);
                assert(v.refs()[self.active@.len() + j] == session_ref);
            }
            if self.counts(session_ref, section, query, now) {
                n = n.saturating_add(1);
            }
            j += 1;
        }
        assert(v.refs().take(v.refs().len() as int) =~= v.refs());
        n
    }

    /// How many of the shown sessions each part of the inventory counts, for a query in lower
    /// case.
    pub fn section_counts_for(&self, query: &str, now: u64) -> (r: SectionCounts)
        ensures
            forall|section: DashboardSection| #[trigger]
                r.of(section) == capped(self@.section_count(section, query@, now)),
    {
        SectionCounts {
            current: self.section_count(DashboardSection::Current, query, now),
            last_day: self.section_count(DashboardSection::LastDay, query, now),
            last_week: self.section_count(DashboardSection::LastWeek, query, now),
            archive: self.section_count(DashboardSection::Archive, query, now),
        }
    }

    /// How many of the shown sessions each part of the inventory counts.
    pub fn section_counts(&self, now: u64) -> (r: SectionCounts)
        ensures
            forall|section: DashboardSection| #[trigger]
                r.of(section) == capped(
                    self@.section_count(section, lowercase_text(self@.query), now),
                ),
    {
        let query: String = lowercase(self.query.as_str());
        self.section_counts_for(query.as_str(), now)
    }
}

// ---- hosts ----

/// The first place of a text from `i` on.
pub open spec fn position_from(names: Seq<Seq<char>>, name: Seq<char>, i: nat) -> Option<usize>
    decreases names.len() - i,
{
    if i >= names.len() {
        None
    } else if names[i as int] == name {
        Some(i as usize)
    } else {
        position_from(names, name, i + 1)
    }
}

/// The first place of a text, or the front.
pub open spec fn place_of(names: Seq<Seq<char>>, name: Seq<char>) -> usize {
    match position_from(names, name, 0) {
        Some(i) => i,
        None => 0,
    }
}

/// The first place of a text, or the front.
pub fn place_in(names: &Vec<String>, name: &str) -> (r: usize)
    ensures
        r == place_of(texts(names@), name@),
        r < names@.len() || r == 0,
{
    let ghost views = texts(names@);
    let mut i: usize = 0;
    while i < names.len()
        invariant
            i <= names@.len(),
            views == texts(names@),
            position_from(views, name@, i as nat) == position_from(views, name@, 0),
        decreases names@.len() - i,
    {
        assert(views[i as int] == names@[i as int]@);
        if same(names[i].as_str(), name) {
            return i;
        }
        i += 1;
    }
    0
}

/// Every host first, then the local one, then the others.
pub open spec fn choice_rank(name: Seq<char>, local_hostname: Seq<char>) -> int {
    if name == ALL_HOSTS@ {
        0
    } else if name == local_hostname {
        1
    } else {
        2
    }
}

/// A choice stands before another.
pub open spec fn choice_before(a: Seq<char>, b: Seq<char>, local_hostname: Seq<char>) -> bool {
    let x = choice_rank(a, local_hostname);
    let y = choice_rank(b, local_hostname);
    x < y || (x == y && text_lt(a, b))
}

/// The choices, and one more in its place where it was not among them.
pub open spec fn with_choice(
    choices: Seq<Seq<char>>,
    name: Seq<char>,
    local_hostname: Seq<char>,
) -> Seq<Seq<char>>
    decreases choices.len(),
{
    if choices.len() == 0 {
        seq![name]
    } else if choices.last() == name {
        choices
    } else if choice_before(choices.last(), name, local_hostname) {
        choices.push(name)
    } else {
        with_choice(choices.drop_last(), name, local_hostname).push(choices.last())
    }
}

/// The choices that names make, each once and in order.
pub open spec fn choices_of(names: Seq<Seq<char>>, local_hostname: Seq<char>) -> Seq<Seq<char>>
    decreases names.len(),
{
    if names.len() == 0 {
        Seq::empty()
    } else {
        with_choice(choices_of(names.drop_last(), local_hostname), names.last(), local_hostname)
    }
}

/// The hosts of sessions.
pub open spec fn session_hosts(sessions: Seq<Session>) -> Seq<Seq<char>> {
    sessions.map_values(|session: Session| session.host@)
}

impl PickerView {
    /// The names under which the targets are observed.
    pub open spec fn observed_targets(self) -> Seq<Seq<char>> {
        self.discovery_targets.map_values(
            |target: Seq<char>| observed_host_text(target, self.local_hostname),
        )
    }

    /// Every name that can be chosen.
    pub open spec fn host_names(self) -> Seq<Seq<char>> {
        seq![ALL_HOSTS@] + self.observed_targets() + session_hosts(self.active) + session_hosts(
            self.settled,
        )
    }

    /// The state after the choices of hosts were rebuilt: a filter that is no longer among
    /// them gives way to every host.
    pub open spec fn with_choices(self) -> PickerView {
        let host_choices = choices_of(self.host_names(), self.local_hostname);
        let host_filter = if host_choices.contains(self.host_filter) {
            self.host_filter
        } else {
            ALL_HOSTS@
        };
        PickerView {
            host_choices,
            host_filter,
            host_selected: place_of(host_choices, host_filter),
            ..self
        }
    }

    /// The target that is observed under a name.
    pub open spec fn target_of(self, host: Seq<char>) -> Option<Seq<char>> {
        first_target(self.discovery_targets, host, self.local_hostname)
    }

    /// What is known of the connection to a host.
    pub open spec fn connectivity(self, host: Seq<char>, fresh: bool, now: u64) ->
        GroupConnectivity {
        if fresh {
            GroupConnectivity::Online
        } else {
            match self.target_of(host) {
                None => GroupConnectivity::Cached,
                Some(target) => if !self.reconnect.dom().contains(target) {
                    GroupConnectivity::Cached
                } else {
                    let state = self.reconnect[target];
                    match state.phase {
                        HostPhase::Connecting => GroupConnectivity::Checking,
                        HostPhase::Backoff => GroupConnectivity::Offline(
                            match state.wait(now) {
                                Some(millis) => Some(
                                    if millis < 1_000 {
                                        1
                                    } else {
                                        millis / 1_000
                                    },
                                ),
                                None => None,
                            },
                        ),
                        HostPhase::Blocked => GroupConnectivity::Blocked,
                        _ => GroupConnectivity::Cached,
                    }
                },
            }
        }
    }
}

/// The first target that is observed under a name.
pub open spec fn first_target(
    targets: Seq<Seq<char>>,
    host: Seq<char>,
    local_hostname: Seq<char>,
) -> Option<Seq<char>>
    decreases targets.len(),
{
    if targets.len() == 0 {
        None
    } else if observed_host_text(targets[0], local_hostname) == host {
        Some(targets[0])
    } else {
        first_target(targets.drop_first(), host, local_hostname)
    }
}

fn is_before(a: &str, b: &str, local_hostname: &str) -> (r: bool)
    ensures
        r == choice_before(a@, b@, local_hostname@),
{
    let x: u8 = if same(a, ALL_HOSTS) {
        0
    } else if same(a, local_hostname) {
        1
    } else {
        2
    };
    let y: u8 = if same(b, ALL_HOSTS) {
        0
    } else if same(b, local_hostname) {
        1
    } else {
        2
    };
    x < y || (x == y && lt(a, b))
}

proof fn lemma_with_choice_at(
    choices: Seq<Seq<char>>,
    name: Seq<char>,
    local_hostname: Seq<char>,
    k: int,
)
    requires
        0 <= k <= choices.len(),
        forall|j: int|
            k <= j < choices.len() ==> #[trigger] choices[j] != name && !choice_before(
                choices[j],
                name,
                local_hostname,
            ),
        k > 0 ==> choices[k - 1] == name || choice_before(choices[k - 1], name, local_hostname),
    ensures
        with_choice(choices, name, local_hostname) == if k > 0 && choices[k - 1] == name {
            choices
        } else {
            choices.insert(k, name)
        },
    decreases choices.len(),
{
    if k == choices.len() {
        if choices.len() == 0 {
            assert(choices.insert(0, name) =~= seq![name]);
        } else if choices.last() != name {
            assert(choices.insert(k, name) =~= choices.push(name));
        }
    } else {
        let rest = choices.drop_last();
        assert(choices[choices.len() - 1] == choices.last());
        assert forall|j: int| k <= j < rest.len() implies #[trigger] rest[j] != name
            && !choice_before(rest[j], name, local_hostname) by {
            assert(rest[j] == choices[j]);
        }
        lemma_with_choice_at(rest, name, local_hostname, k);
        if k > 0 && choices[k - 1] == name {
            assert(rest.push(choices.last()) =~= choices);
        } else {
            assert(rest.insert(k, name).push(choices.last()) =~= choices.insert(k, name));
        }
    }
}

fn add_choice(choices: &mut Vec<String>, name: &str, local_hostname: &str)
    ensures
        texts(final(choices)@) == with_choice(texts(old(choices)@), name@, local_hostname@),
{
    let ghost views = texts(choices@);
    let mut k: usize = choices.len();
    while k > 0 && !same(choices[k - 1].as_str(), name) && !is_before(
        choices[k - 1].as_str(),
        name,
        local_hostname,
    )
        invariant
            k <= choices@.len(),
            views == texts(choices@),
            forall|j: int|
                k <= j < views.len() ==> #[trigger] views[j] != name@ && !choice_before(
                    views[j],
                    name@,
                    local_hostname@,
                ),
        decreases k,
    {
        assert(views[k - 1] == choices@[k - 1]@);
        k -= 1;
    }
    proof {
        if k > 0 {
            assert(views[k - 1] == choices@[k - 1]@);
        }
        lemma_with_choice_at(views, name@, local_hostname@, k as int);
    }
    if k > 0 && same(choices[k - 1].as_str(), name) {
        return;
    }
    choices.insert(k, name.to_owned());
    assert(texts(choices@) =~= views.insert(k as int, name@));
}

impl PickerApp {
    /// Rebuilds the choices of hosts from the targets and the inventory.
    pub fn rebuild_host_choices(&mut self)
        ensures
            final(self)@ == old(self)@.with_choices(),
            old(self)@.wf() ==> final(self)@.wf(),
    {
        let ghost v = self@;
        let ghost names = v.host_names();
        let ghost targets = v.observed_targets();
        let ghost first = session_hosts(v.active);
        let local: &str = self.local_hostname.as_str();
        let mut choices: Vec<String> = Vec::new();
        proof {
            assert(texts(choices@) =~= choices_of(names.take(0), local@));
            assert(names.take(1).drop_last() =~= names.take(0));
            assert(names.take(1).last() == ALL_HOSTS@);
        }
        add_choice(&mut choices, ALL_HOSTS, local);
        let mut i: usize = 0;
        while i < self.discovery_targets.len()
            invariant
                v == self@,
                names == v.host_names(),
                targets == v.observed_targets(),
                local@ == v.local_hostname,
                i <= self.discovery_targets@.len(),
                texts(choices@) == choices_of(names.take(1 + i), local@),
            decreases self.discovery_targets@.len() - i,
        {
            let observed: String = observed_host(self.discovery_targets[i].as_str(), local);
            proof {
                assert(targets[i as int] == observed@);
                assert(names[1 + i] == observed@);
                assert(names.take(2 + i).drop_last() =~= names.take(1 + i));
                assert(names.take(2 + i).last() == observed@);
            }
            add_choice(&mut choices, observed.as_str(), local);
            i += 1;
        }
        let ghost n = 1 + targets.len();
        let mut j: usize = 0;
        while j < self.active.len()
            invariant
                v == self@,
                names == v.host_names(),
                n == 1 + v.observed_targets().len(),
                local@ == v.local_hostname,
                j <= self.active@.len(),
                texts(choices@) == choices_of(names.take(n + j), local@),
            decreases self.active@.len() - j,
        {
            proof {
                assert(session_hosts(v.active)[j as int] == self.active@[j as int].host@);
                assert(names[n + j] == self.active@[j as int].host@);
                assert(names.take(n + j + 1).drop_last() =~= names.take(n + j));
                assert(names.take(n + j + 1).last() == names[n + j]);
            }
            add_choice(&mut choices, self.active[j].host.as_str(), local);
            j += 1;
        }
        let ghost m = n + first.len();
        let mut k: usize = 0;
        while k < self.settled.len()
            invariant
                v == self@,
                names == v.host_names(),
                m == 1 + v.observed_targets().len() + session_hosts(v.active).len(),
                local@ == v.local_hostname,
                k <= self.settled@.len(),
                texts(choices@) == choices_of(names.take(m + k), local@),
            decreases self.settled@.len() - k,
        {
            proof {
                assert(session_hosts(v.settled)[k as int] == self.settled@[k as int].host@);
                assert(names[m + k] == self.settled@[k as int].host@);
                assert(names.take(m + k + 1).drop_last() =~= names.take(m + k));
                assert(names.take(m + k + 1).last() == names[m + k]);
            }
            add_choice(&mut choices, self.settled[k].host.as_str(), local);
            k += 1;
        }
        assert(names.take(names.len() as int) =~= names);
        let filter: &str = self.host_filter.as_str();
        let mut found: bool = false;
        let mut c: usize = 0;
        while c < choices.len() && !found
            invariant
                c <= choices@.len(),
                found ==> texts(choices@).contains(filter@),
                !found ==> forall|q: int| 0 <= q < c ==> #[trigger] texts(choices@)[q] != filter@,
            decreases choices@.len() - c + if found { 0int } else { 1int },
        {
            if same(choices[c].as_str(), filter) {
                assert(texts(choices@)[c as int] == filter@);
                found = true;
            } else {
                assert(texts(choices@)[c as int] == choices@[c as int]@);
                c += 1;
            }
        }
        if !found {
            self.host_filter = ALL_HOSTS.to_owned();
        }
        self.host_selected = place_in(&choices, self.host_filter.as_str());
        self.host_choices = choices;
    }

    /// The target that is observed under a name.
    pub fn target_for_observed_host(&self, host: &str) -> (r: Option<&String>)
        ensures
            r is Some <==> self@.target_of(host@) is Some,
            r matches Some(target) ==> self@.target_of(host@) == Some(target@),
    {
        let ghost targets = texts(self.discovery_targets@);
        let local: &str = self.local_hostname.as_str();
        let mut i: usize = 0;
        assert(targets.skip(0) =~= targets);
        while i < self.discovery_targets.len()
            invariant
                i <= self.discovery_targets@.len(),
                targets == texts(self.discovery_targets@),
                local@ == self@.local_hostname,
                first_target(targets.skip(i as int), host@, local@) == self@.target_of(host@),
            decreases self.discovery_targets@.len() - i,
        {
            proof {
                assert(targets.skip(i as int)[0] == self.discovery_targets@[i as int]@);
                assert(targets.skip(i as int).drop_first() =~= targets.skip(i + 1));
            }
            let target: &String = &self.discovery_targets[i];
            if same(observed_host(target.as_str(), local).as_str(), host) {
                return Some(target);
            }
            i += 1;
        }
        assert(targets.skip(i as int).len() == 0);
        None
    }

    /// What is known of the connection to a host, at a time of the monotonic clock.
    pub fn group_connectivity(&self, host: &str, fresh: bool, now: u64) -> (r: GroupConnectivity)
        ensures
            r == self@.connectivity(host@, fresh, now),
    {
        if fresh {
            return GroupConnectivity::Online;
        }
        let target: &String = match self.target_for_observed_host(host) {
            Some(target) => target,
            None => {
                return GroupConnectivity::Cached;
            },
        };
        match self.reconnect.get(target.as_str()) {
            None => GroupConnectivity::Cached,
            Some(state) => match state.phase() {
                HostPhase::Connecting => GroupConnectivity::Checking,
                HostPhase::Backoff => GroupConnectivity::Offline(
                    match state.retry_in(now) {
                        Some(millis) => Some(if millis < 1_000 { 1 } else { millis / 1_000 }),
                        None => None,
                    },
                ),
                HostPhase::Blocked => GroupConnectivity::Blocked,
                _ => GroupConnectivity::Cached,
            },
        }
    }
}

// ---- laws ----

/// The sessions of the dashboard stand in the order of their places: local before other
/// hosts, then by the names of host and directory, so that no group moves when an activity,
/// a time or an unread mark changes.
pub proof fn groups_do_not_move_with_activity(
    v: PickerView,
    query: Seq<char>,
    now: u64,
    archive: bool,
    i: int,
    j: int,
)
    requires
        0 <= i < j < v.sorted(query, now, archive).len(),
    ensures
        ({
            let a = v.sorted(query, now, archive)[i];
            let b = v.sorted(query, now, archive)[j];
            &&& b.remote || !a.remote
            &&& a.remote == b.remote ==> text_le(a.host@, b.host@)
            &&& a.host@ == b.host@ && a.remote == b.remote ==> text_le(a.cwd@, b.cwd@)
        }),
{
    let entries = v.listed(query, now, archive).map_values(|r: SessionRef| v.sort_entry(r));
    crate::order::ranked_is_in_order(entries);
    assert(v.sorted(query, now, archive)[i].at_most(v.sorted(query, now, archive)[j]));
}

proof fn lemma_sessions_of_projects(
    v: PickerView,
    entries: Seq<SortedRef>,
    section: DashboardSection,
)
    ensures
        v.project_rows(entries, section, true).filter(is_session_row()) == session_rows(entries),
    decreases entries.len(),
{
    let keep = is_session_row();
    reveal(Seq::filter);
    if entries.len() == 0 {
        assert(session_rows(entries) =~= Seq::<DashboardRow>::empty());
    } else {
        let n = cwd_run(entries, entries[0].cwd@);
        lemma_cwd_run(entries, entries[0].cwd@);
        let own = entries.take(n as int);
        let rest = entries.skip(n as int);
        let head = seq![v.project_head(own, section, true)];
        let tail = v.project_rows(rest, section, true);
        lemma_sessions_of_projects(v, rest, section);
        lemma_only_sessions(own);
        Seq::filter_distributes_over_add(head, session_rows(own), keep);
        Seq::filter_distributes_over_add(head + session_rows(own), tail, keep);
        lemma_head_is_dropped(v.project_head(own, section, true));
        assert(session_rows(entries) =~= session_rows(own) + session_rows(rest));
        assert(Seq::<DashboardRow>::empty() + session_rows(own) =~= session_rows(own));
    }
}

proof fn lemma_head_is_dropped(row: DashboardRow)
    requires
        !(row is Session),
    ensures
        seq![row].filter(is_session_row()) == Seq::<DashboardRow>::empty(),
{
    let none = Seq::<DashboardRow>::empty();
    none.lemma_filter_push(row, is_session_row());
    reveal(Seq::filter);
    assert(none.filter(is_session_row()) =~= none);
    assert(seq![row] =~= none.push(row));
}

proof fn lemma_only_sessions(entries: Seq<SortedRef>)
    ensures
        session_rows(entries).filter(is_session_row()) == session_rows(entries),
    decreases entries.len(),
{
    reveal(Seq::filter);
    let rows = session_rows(entries);
    if entries.len() > 0 {
        lemma_only_sessions(entries.drop_last());
        assert(rows.drop_last() =~= session_rows(entries.drop_last()));
        assert(rows =~= rows.drop_last().push(rows.last()));
    }
}

proof fn lemma_sessions_of_hosts(v: PickerView, entries: Seq<SortedRef>, section: DashboardSection)
    ensures
        v.host_rows(entries, section, true).filter(is_session_row()) == session_rows(entries),
    decreases entries.len(),
{
    let keep = is_session_row();
    reveal(Seq::filter);
    if entries.len() == 0 {
        assert(session_rows(entries) =~= Seq::<DashboardRow>::empty());
    } else {
        let n = host_run(entries, entries[0].host@);
        lemma_host_run(entries, entries[0].host@);
        let own = entries.take(n as int);
        let rest = entries.skip(n as int);
        let head = seq![v.host_head(own, section, true)];
        let body = v.project_rows(own, section, true);
        let tail = v.host_rows(rest, section, true);
        lemma_sessions_of_hosts(v, rest, section);
        lemma_sessions_of_projects(v, own, section);
        Seq::filter_distributes_over_add(head, body, keep);
        Seq::filter_distributes_over_add(head + body, tail, keep);
        lemma_head_is_dropped(v.host_head(own, section, true));
        assert(session_rows(entries) =~= session_rows(own) + session_rows(rest));
        assert(Seq::<DashboardRow>::empty() + session_rows(own) =~= session_rows(own));
    }
}

/// A search shows every session that matches it exactly once, whatever is collapsed: first
/// those above the archive, in their order, and then those of the archive.
pub proof fn a_search_shows_every_match_once(v: PickerView, query: Seq<char>, now: u64)
    requires
        query.len() > 0,
    ensures
        v.dashboard(query, now).filter(is_session_row()) == session_rows(
            v.sorted(query, now, false),
        ) + session_rows(v.sorted(query, now, true)),
        v.sorted(query, now, false).len() + v.sorted(query, now, true).len() == v.refs().filter(
            |r: SessionRef| v.shown(v.session_of(r), query),
        ).len(),
{
    let keep = is_session_row();
    let above = v.sorted(query, now, false);
    let archive = v.sorted(query, now, true);
    let head = v.host_rows(above, DashboardSection::Current, true);
    let heading = DashboardRow::Section {
        section: DashboardSection::Archive,
        count: v.listed(query, now, true).len() as usize,
        expanded: v.archive_expanded(query, now),
    };
    let expanded = v.archive_expanded(query, now);
    let tail = if expanded {
        v.host_rows(archive, DashboardSection::Archive, true)
    } else {
        Seq::empty()
    };
    let wrap = |r: SessionRef| v.sort_entry(r);
    crate::order::ranked_is_permutation(v.listed(query, now, true).map_values(wrap));
    crate::order::ranked_is_permutation(v.listed(query, now, false).map_values(wrap));
    lemma_sessions_of_hosts(v, above, DashboardSection::Current);
    lemma_sessions_of_hosts(v, archive, DashboardSection::Archive);
    lemma_head_is_dropped(heading);
    Seq::filter_distributes_over_add(head, seq![heading], keep);
    Seq::filter_distributes_over_add(head + seq![heading], tail, keep);
    if !expanded {
        reveal(Seq::filter);
        assert(archive.len() == 0);
        assert(session_rows(archive) =~= Seq::<DashboardRow>::empty());
        assert(tail.filter(keep) =~= Seq::<DashboardRow>::empty());
    }
    assert(session_rows(above) + Seq::<DashboardRow>::empty() =~= session_rows(above));
    lemma_split_count(v, v.refs(), query, now);
}

proof fn lemma_split_count(v: PickerView, refs: Seq<SessionRef>, query: Seq<char>, now: u64)
    ensures
        refs.filter(|r: SessionRef| v.lists(r, query, now, false)).len() + refs.filter(
            |r: SessionRef| v.lists(r, query, now, true),
        ).len() == refs.filter(|r: SessionRef| v.shown(v.session_of(r), query)).len(),
    decreases refs.len(),
{
    let above = |r: SessionRef| v.lists(r, query, now, false);
    let archive = |r: SessionRef| v.lists(r, query, now, true);
    let shown = |r: SessionRef| v.shown(v.session_of(r), query);
    reveal(Seq::filter);
    if refs.len() > 0 {
        let rest = refs.drop_last();
        lemma_split_count(v, rest, query, now);
        assert(refs =~= rest.push(refs.last()));
        rest.lemma_filter_push(refs.last(), above);
        rest.lemma_filter_push(refs.last(), archive);
        rest.lemma_filter_push(refs.last(), shown);
    }
}

proof fn lemma_first_from(
    rows: Seq<DashboardRow>,
    property: spec_fn(DashboardRow) -> bool,
    i: nat,
    k: int,
)
    requires
        i <= k < rows.len() <= usize::MAX,
        property(rows[k]),
    ensures
        first_from(rows, property, i) is Some,
        i <= first_from(rows, property, i)->0 <= k,
        property(rows[first_from(rows, property, i)->0 as int]),
    decreases rows.len() - i,
{
    if !property(rows[i as int]) {
        lemma_first_from(rows, property, i + 1, k);
    }
}

/// The cursor stays on what it stood on as long as that is shown, wherever it moved.
pub proof fn the_cursor_follows_its_selection(
    v: PickerView,
    selection: SelectionView,
    now: u64,
    k: int,
)
    requires
        0 <= k < v.rebuilt(Some(selection), now).rows.len() <= usize::MAX,
        v.row_is(v.rebuilt(Some(selection), now).rows[k], selection),
    ensures
        v.rebuilt(Some(selection), now).selection() == Some(selection),
{
    let rows = v.rebuilt(Some(selection), now).rows;
    lemma_first_from(rows, v.selects(selection), 0, k);
    let i = first_from(rows, v.selects(selection), 0)->0;
    assert(v.row_is(rows[i as int], selection));
}

/// Strictly in the order of the choices.
pub open spec fn choices_in_order(choices: Seq<Seq<char>>, local_hostname: Seq<char>) -> bool {
    forall|i: int, j: int|
        0 <= i < j < choices.len() ==> choice_before(
            #[trigger] choices[i],
            #[trigger] choices[j],
            local_hostname,
        )
}

proof fn lemma_choice_order(a: Seq<char>, b: Seq<char>, c: Seq<char>, local_hostname: Seq<char>)
    ensures
        a == b || choice_before(a, b, local_hostname) || choice_before(b, a, local_hostname),
        choice_before(a, b, local_hostname) && choice_before(b, c, local_hostname)
            ==> choice_before(a, c, local_hostname),
        !choice_before(a, a, local_hostname),
{
    text_lt_total(a, b);
    text_lt_irreflexive(a);
    if text_lt(a, b) && text_lt(b, c) {
        text_lt_transitive(a, b, c);
    }
}

proof fn lemma_with_choice(
    choices: Seq<Seq<char>>,
    name: Seq<char>,
    local_hostname: Seq<char>,
    x: Seq<char>,
)
    requires
        choices_in_order(choices, local_hostname),
    ensures
        choices_in_order(with_choice(choices, name, local_hostname), local_hostname),
        with_choice(choices, name, local_hostname).contains(x) <==> choices.contains(x) || x
            == name,
        forall|k: int|
            0 <= k < with_choice(choices, name, local_hostname).len() ==> {
                let y = #[trigger] with_choice(choices, name, local_hostname)[k];
                y == name || choices.contains(y)
            },
    decreases choices.len(),
{
    let after = with_choice(choices, name, local_hostname);
    if choices.len() == 0 {
        assert(after[0] == name);
        assert(after.contains(name));
    } else if choices.last() == name {
        assert(choices[choices.len() - 1] == name);
        assert(choices.contains(name));
    } else if choice_before(choices.last(), name, local_hostname) {
        assert forall|i: int, j: int| 0 <= i < j < after.len() implies choice_before(
            #[trigger] after[i],
            #[trigger] after[j],
            local_hostname,
        ) by {
            if j == choices.len() && i < choices.len() - 1 {
                assert(choice_before(choices[i], choices[choices.len() - 1], local_hostname));
                lemma_choice_order(after[i], choices.last(), name, local_hostname);
            }
        }
        assert(after[choices.len() as int] == name);
        if choices.contains(x) {
            let k = choose|k: int| 0 <= k < choices.len() && choices[k] == x;
            assert(after[k] == x);
        }
        assert forall|k: int| 0 <= k < after.len() implies ({
            let y = #[trigger] after[k];
            y == name || choices.contains(y)
        }) by {
            if k < choices.len() {
                assert(after[k] == choices[k]);
            }
        }
    } else {
        let rest = choices.drop_last();
        let last = choices.last();
        assert(choices_in_order(rest, local_hostname)) by {
            assert forall|i: int, j: int| 0 <= i < j < rest.len() implies choice_before(
                #[trigger] rest[i],
                #[trigger] rest[j],
                local_hostname,
            ) by {
                assert(choice_before(choices[i], choices[j], local_hostname));
            }
        }
        lemma_with_choice(rest, name, local_hostname, x);
        lemma_choice_order(last, name, name, local_hostname);
        let inner = with_choice(rest, name, local_hostname);
        assert forall|i: int, j: int| 0 <= i < j < after.len() implies choice_before(
            #[trigger] after[i],
            #[trigger] after[j],
            local_hostname,
        ) by {
            if j == inner.len() {
                let y = inner[i];
                if y != name {
                    let k = choose|k: int| 0 <= k < rest.len() && rest[k] == y;
                    assert(choice_before(choices[k], choices[choices.len() - 1], local_hostname));
                }
            } else {
                assert(choice_before(inner[i], inner[j], local_hostname));
            }
        }
        assert forall|k: int| 0 <= k < after.len() implies ({
            let y = #[trigger] after[k];
            y == name || choices.contains(y)
        }) by {
            if k < inner.len() {
                let y = inner[k];
                if y != name {
                    let m = choose|m: int| 0 <= m < rest.len() && rest[m] == y;
                    assert(choices[m] == y);
                }
            } else {
                assert(choices[choices.len() - 1] == after[k]);
            }
        }
        if choices.contains(x) {
            let k = choose|k: int| 0 <= k < choices.len() && choices[k] == x;
            if k < rest.len() {
                assert(rest[k] == x);
                let m = choose|m: int| 0 <= m < inner.len() && inner[m] == x;
                assert(after[m] == x);
            } else {
                assert(after[inner.len() as int] == x);
            }
        }
        if x == name {
            let m = choose|m: int| 0 <= m < inner.len() && inner[m] == x;
            assert(after[m] == x);
        }
    }
}

/// The choices of hosts name every host once: first all hosts, then the local one, then the
/// others by name.
pub proof fn host_choices_are_ordered_and_complete(
    names: Seq<Seq<char>>,
    local_hostname: Seq<char>,
    x: Seq<char>,
)
    ensures
        choices_in_order(choices_of(names, local_hostname), local_hostname),
        choices_of(names, local_hostname).contains(x) <==> names.contains(x),
    decreases names.len(),
{
    if names.len() > 0 {
        let rest = names.drop_last();
        host_choices_are_ordered_and_complete(rest, local_hostname, x);
        lemma_with_choice(choices_of(rest, local_hostname), names.last(), local_hostname, x);
        if names.contains(x) {
            let k = choose|k: int| 0 <= k < names.len() && names[k] == x;
            if k < rest.len() {
                assert(rest[k] == x);
            }
        }
        if rest.contains(x) {
            let k = choose|k: int| 0 <= k < rest.len() && rest[k] == x;
            assert(names[k] == x);
        }
        assert(names[names.len() - 1] == names.last());
    }
}

/// After the choices were rebuilt the filter is one of them.
pub proof fn the_filter_is_a_choice(v: PickerView)
    ensures
        v.with_choices().host_choices.contains(v.with_choices().host_filter),
{
    assert(v.host_names()[0] == ALL_HOSTS@);
    host_choices_are_ordered_and_complete(v.host_names(), v.local_hostname, ALL_HOSTS@);
}

proof fn lemma_filter_monotone<A>(s: Seq<A>, p: spec_fn(A) -> bool, q: spec_fn(A) -> bool)
    requires
        forall|x: A| #[trigger] p(x) ==> q(x),
    ensures
        s.filter(p).len() <= s.filter(q).len(),
    decreases s.len(),
{
    reveal(Seq::filter);
    if s.len() > 0 {
        lemma_filter_monotone(s.drop_last(), p, q);
    }
}

/// The recent totals overlap, and say nothing of where a session stands: a session of the last
/// day is one of the last week too, whether it is live, unread or archived.
pub proof fn recent_counts_overlap(
    v: PickerView,
    session_ref: SessionRef,
    query: Seq<char>,
    now: u64,
)
    ensures
        v.counts(session_ref, DashboardSection::LastDay, query, now) ==> v.counts(
            session_ref,
            DashboardSection::LastWeek,
            query,
            now,
        ),
        v.counts(session_ref, DashboardSection::LastDay, query, now) <==> v.shown(
            v.session_of(session_ref),
            query,
        ) && age_of(v.session_of(session_ref), now) <= DAY_SECONDS,
        v.section_count(DashboardSection::LastDay, query, now) <= v.section_count(
            DashboardSection::LastWeek,
            query,
            now,
        ),
{
    lemma_filter_monotone(
        v.refs(),
        |r: SessionRef| v.counts(r, DashboardSection::LastDay, query, now),
        |r: SessionRef| v.counts(r, DashboardSection::LastWeek, query, now),
    );
}

} // verus!
