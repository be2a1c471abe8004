//! The cached inventory: session snapshots together with the user's archive choices and
//! unread attention.

use vstd::prelude::*;

use crate::domain::{Activity, AgentKind, Session};
use crate::order::{ranked, stable_sort, Ranked};
use crate::text::{join_path, join_path_text, lemma_texts_push, same, texts, trim, trimmed};

verus! {

/// How long a finished session stays in the active view without interaction: one week.
pub const DEFAULT_STALE_AFTER_SECONDS: u64 = 604_800;

/// Why the store refused.
#[derive(Clone, Copy, Debug, Eq, PartialEq, Structural)]
pub enum StoreError {
    /// No directory for the state could be determined.
    MissingStateDirectory,
    /// No row has the session's identifier.
    UnknownSession,
}

impl StoreError {
    /// What the user is told.
    pub open spec fn text(self) -> Seq<char> {
        match self {
            StoreError::MissingStateDirectory => "could not determine a local state directory"@,
            StoreError::UnknownSession => "Rollcall state database failed: Query returned no rows"@,
        }
    }

    /// What the user is told.
    pub fn message(&self) -> (r: String)
        ensures
            r@ == self.text(),
    {
        match self {
            StoreError::MissingStateDirectory =>
                "could not determine a local state directory".to_owned(),
            StoreError::UnknownSession =>
                "Rollcall state database failed: Query returned no rows".to_owned(),
        }
    }
}

/// What kind of attention a session asks for.
#[derive(Clone, Copy, Debug, Eq, PartialEq, Structural)]
pub enum SessionTransitionKind {
    Completed,
    Approval,
    Input,
    Failed,
}

impl SessionTransitionKind {
    /// The name of the kind.
    pub open spec fn name(self) -> Seq<char> {
        match self {
            SessionTransitionKind::Completed => "completed"@,
            SessionTransitionKind::Approval => "approval"@,
            SessionTransitionKind::Input => "input"@,
            SessionTransitionKind::Failed => "failed"@,
        }
    }

    /// The name of the kind.
    pub fn as_str(self) -> (r: &'static str)
        ensures
            r@ == self.name(),
    {
        match self {
            SessionTransitionKind::Completed => "completed",
            SessionTransitionKind::Approval => "approval",
            SessionTransitionKind::Input => "input",
            SessionTransitionKind::Failed => "failed",
        }
    }
}

/// A change that asks for the user's attention.
#[derive(Debug, Eq, PartialEq)]
pub struct SessionTransition {
    pub session_id: String,
    pub title: String,
    pub host: String,
    pub kind: SessionTransitionKind,
    pub observed_at_unix_seconds: u64,
}

impl Clone for SessionTransition {
    fn clone(&self) -> (r: Self)
        ensures
            r == *self,
    {
        SessionTransition {
            session_id: self.session_id.clone(),
            title: self.title.clone(),
            host: self.host.clone(),
            kind: self.kind,
            observed_at_unix_seconds: self.observed_at_unix_seconds,
        }
    }
}

/// Why a session is out of the active view.
#[derive(Clone, Copy, Debug, Eq, PartialEq, Structural)]
pub enum ArchiveReason {
    /// The user archived it.
    Manual,
    /// It was settled for want of interaction.
    Stale,
}

impl ArchiveReason {
    /// The name of the reason.
    pub open spec fn name(self) -> Seq<char> {
        match self {
            ArchiveReason::Manual => "manual"@,
            ArchiveReason::Stale => "stale"@,
        }
    }

    /// The name of the reason.
    pub fn as_str(self) -> (r: &'static str)
        ensures
            r@ == self.name(),
    {
        match self {
            ArchiveReason::Manual => "manual",
            ArchiveReason::Stale => "stale",
        }
    }
}

/// One session as the history lists it.
#[derive(Debug, Eq, PartialEq)]
pub struct HistoryEntry {
    pub session: Session,
    pub settled: bool,
    pub unread: bool,
    pub notification_kind: Option<String>,
    pub notification_at_unix_seconds: Option<u64>,
    pub settled_at_unix_seconds: Option<u64>,
    pub settle_reason: Option<String>,
    pub last_seen_unix_seconds: u64,
}

/// One row of the store.
#[derive(Debug, Eq, PartialEq)]
pub struct StoredSession {
    pub session_id: String,
    pub snapshot: Session,
    pub archived: bool,
    pub archived_at: Option<i64>,
    pub last_seen: i64,
    pub last_interaction: i64,
    pub archive_reason: Option<ArchiveReason>,
    pub archive_basis_interaction: Option<i64>,
    pub active_override_interaction: Option<i64>,
    pub notification_unread: bool,
    pub notification_kind: Option<SessionTransitionKind>,
    pub notification_at: Option<i64>,
}

impl Clone for StoredSession {
    fn clone(&self) -> (r: Self)
        ensures
            r == *self,
    {
        StoredSession {
            session_id: self.session_id.clone(),
            snapshot: self.snapshot.clone(),
            archived: self.archived,
            archived_at: self.archived_at,
            last_seen: self.last_seen,
            last_interaction: self.last_interaction,
            archive_reason: self.archive_reason,
            archive_basis_interaction: self.archive_basis_interaction,
            active_override_interaction: self.active_override_interaction,
            notification_unread: self.notification_unread,
            notification_kind: self.notification_kind,
            notification_at: self.notification_at,
        }
    }
}

// ---- the rules of one row ----

/// Unix seconds as the store keeps them: capped at the largest signed value.
pub open spec fn stored_seconds(seconds: u64) -> i64 {
    if seconds <= i64::MAX {
        seconds as i64
    } else {
        i64::MAX
    }
}

/// Unix seconds as the store keeps them.
pub fn to_stored_seconds(seconds: u64) -> (r: i64)
    ensures
        r == stored_seconds(seconds),
{
    if seconds <= i64::MAX as u64 {
        seconds as i64
    } else {
        i64::MAX
    }
}

/// Stored seconds as a count; there is none before the epoch.
pub open spec fn counted_seconds(value: i64) -> Option<u64> {
    if value >= 0 {
        Some(value as u64)
    } else {
        None
    }
}

fn nonnegative_u64(value: i64) -> (r: Option<u64>)
    ensures
        r == counted_seconds(value),
{
    if value >= 0 {
        Some(value as u64)
    } else {
        None
    }
}

fn seconds_or_zero(value: i64) -> (r: u64)
    ensures
        r == seconds_from_epoch(value),
{
    if value >= 0 {
        value as u64
    } else {
        0
    }
}

/// Stored seconds as a count from the epoch.
pub open spec fn seconds_from_epoch(value: i64) -> u64 {
    if value >= 0 {
        value as u64
    } else {
        0
    }
}

/// A subagent of Oh My Pi without a title: no inventory shows it.
pub open spec fn is_legacy(session: Session) -> bool {
    (session.agent is Omp || session.source@ == "omp"@) && trimmed(session.title@).len() == 0
}

fn is_legacy_omp_subagent(session: &Session) -> (r: bool)
    ensures
        r == is_legacy(*session),
{
    let omp: bool = match session.agent {
        AgentKind::Omp => true,
        _ => same(session.source.as_str(), "omp"),
    };
    omp && trim(session.title.as_str()).as_str().is_empty()
}

/// The attention that a change of activity asks for: a turn that ends, and any newly
/// reached state in which the session waits or has failed.
pub open spec fn attention(previous: Activity, current: Activity) -> Option<SessionTransitionKind> {
    if previous == current {
        None
    } else {
        match current {
            Activity::Completed => if previous is Working || previous is WaitingApproval
                || previous is WaitingInput {
                Some(SessionTransitionKind::Completed)
            } else {
                None
            },
            Activity::WaitingApproval => Some(SessionTransitionKind::Approval),
            Activity::WaitingInput => Some(SessionTransitionKind::Input),
            Activity::Failed => Some(SessionTransitionKind::Failed),
            _ => None,
        }
    }
}

/// The attention that a newer snapshot of a session asks for.
pub fn attention_transition(previous: &Session, current: &Session) -> (r: Option<
    SessionTransitionKind,
>)
    ensures
        r == attention(previous.activity, current.activity),
{
    if previous.activity == current.activity {
        return None;
    }
    match current.activity {
        Activity::Completed => match previous.activity {
            Activity::Working | Activity::WaitingApproval | Activity::WaitingInput => Some(
                SessionTransitionKind::Completed,
            ),
            _ => None,
        },
        Activity::WaitingApproval => Some(SessionTransitionKind::Approval),
        Activity::WaitingInput => Some(SessionTransitionKind::Input),
        Activity::Failed => Some(SessionTransitionKind::Failed),
        Activity::Working | Activity::Unknown => None,
    }
}

/// The attention that recording `session` over `row` asks for. What the user archived asks
/// for none.
pub open spec fn recorded_transition(
    row: StoredSession,
    session: Session,
) -> Option<SessionTransitionKind> {
    if !row.archived || row.archive_reason == Some(ArchiveReason::Stale) {
        attention(row.snapshot.activity, session.activity)
    } else {
        None
    }
}

/// New activity reached a session that was settled for want of it.
pub open spec fn wakes(row: StoredSession, last_interaction: i64) -> bool {
    row.archive_reason == Some(ArchiveReason::Stale) && match row.archive_basis_interaction {
        Some(basis) => last_interaction > basis,
        None => last_interaction > -1,
    }
}

/// The row of a session that was not known before.
pub open spec fn first_row(session: Session, now: i64) -> StoredSession {
    StoredSession {
        session_id: session.id,
        snapshot: session,
        archived: false,
        archived_at: None,
        last_seen: now,
        last_interaction: stored_seconds(session.last_interaction_unix_seconds),
        archive_reason: None,
        archive_basis_interaction: None,
        active_override_interaction: None,
        notification_unread: false,
        notification_kind: None,
        notification_at: None,
    }
}

/// The row after a newer snapshot: native metadata is replaced, the user's choices stay,
/// a stale session wakes with new activity, a restored one loses its pin with it, and
/// attention is marked unread.
pub open spec fn refreshed_row(row: StoredSession, session: Session, now: i64) -> StoredSession {
    let interaction = stored_seconds(session.last_interaction_unix_seconds);
    let woken = wakes(row, interaction);
    let transition = recorded_transition(row, session);
    StoredSession {
        session_id: row.session_id,
        snapshot: session,
        archived: if woken { false } else { row.archived },
        archived_at: if woken { None } else { row.archived_at },
        last_seen: now,
        last_interaction: interaction,
        archive_reason: if woken { None } else { row.archive_reason },
        archive_basis_interaction: if woken { None } else { row.archive_basis_interaction },
        active_override_interaction: match row.active_override_interaction {
            Some(pinned) => if interaction > pinned { None } else { Some(pinned) },
            None => None,
        },
        notification_unread: transition is Some || row.notification_unread,
        notification_kind: if transition is Some { transition } else { row.notification_kind },
        notification_at: if transition is Some { Some(now) } else { row.notification_at },
    }
}

/// The row after the user archives or restores the session. A restore pins the session in
/// the active view at the interaction it has.
pub open spec fn archived_row(row: StoredSession, archived: bool, now: i64) -> StoredSession {
    StoredSession {
        archived,
        archived_at: if archived { Some(now) } else { None },
        archive_reason: if archived { Some(ArchiveReason::Manual) } else { None },
        archive_basis_interaction: None,
        active_override_interaction: if archived { None } else { Some(row.last_interaction) },
        notification_unread: if archived { false } else { row.notification_unread },
        ..row
    }
}

/// The row after its attention was acknowledged.
pub open spec fn acknowledged_row(row: StoredSession) -> StoredSession {
    StoredSession { notification_unread: false, ..row }
}

/// A session is due to be settled: it is active and read, its last interaction is not after
/// the cutoff, it is not pinned at that interaction, and it waits for nothing.
pub open spec fn is_stale(row: StoredSession, cutoff: int) -> bool {
    &&& !row.archived
    &&& !row.notification_unread
    &&& row.last_interaction <= cutoff
    &&& row.active_override_interaction != Some(row.last_interaction)
    &&& row.snapshot.activity.settles()
}

/// The row after the session was settled for want of interaction.
pub open spec fn settled_row(row: StoredSession, now: i64) -> StoredSession {
    StoredSession {
        archived: true,
        archived_at: Some(now),
        archive_reason: Some(ArchiveReason::Stale),
        archive_basis_interaction: Some(row.last_interaction),
        ..row
    }
}

/// The time up to which an interaction is stale.
pub open spec fn stale_cutoff(now: i64, stale_after_seconds: u64) -> int {
    let cutoff = now - stored_seconds(stale_after_seconds);
    if cutoff < i64::MIN {
        i64::MIN as int
    } else {
        cutoff
    }
}

/// The row with its interaction time filled in from the snapshot where it was never kept.
pub open spec fn backfilled_row(row: StoredSession) -> StoredSession {
    if row.last_interaction == 0 {
        StoredSession {
            last_interaction: stored_seconds(row.snapshot.last_interaction_unix_seconds),
            ..row
        }
    } else {
        row
    }
}

/// The history's entry of a row.
pub open spec fn is_history_entry(entry: HistoryEntry, row: StoredSession) -> bool {
    &&& entry.session == row.snapshot
    &&& entry.settled == row.archived
    &&& entry.unread == row.notification_unread
    &&& match (entry.notification_kind, row.notification_kind) {
        (Some(name), Some(kind)) => name@ == kind.name(),
        (None, None) => true,
        _ => false,
    }
    &&& entry.notification_at_unix_seconds == match row.notification_at {
        Some(at) => counted_seconds(at),
        None => None,
    }
    &&& entry.settled_at_unix_seconds == match row.archived_at {
        Some(at) => counted_seconds(at),
        None => None,
    }
    &&& match (entry.settle_reason, row.archive_reason) {
        (Some(name), Some(reason)) => name@ == reason.name(),
        (None, None) => true,
        _ => false,
    }
    &&& entry.last_seen_unix_seconds == seconds_from_epoch(row.last_seen)
}

fn recorded_kind(row: &StoredSession, session: &Session) -> (r: Option<SessionTransitionKind>)
    ensures
        r == recorded_transition(*row, *session),
{
    let asks: bool = if !row.archived {
        true
    } else {
        match row.archive_reason {
            Some(ArchiveReason::Stale) => true,
            _ => false,
        }
    };
    if asks {
        attention_transition(&row.snapshot, session)
    } else {
        None
    }
}

fn make_first_row(session: &Session, now: i64) -> (r: StoredSession)
    ensures
        r == first_row(*session, now),
{
    StoredSession {
        session_id: session.id.clone(),
        snapshot: session.clone(),
        archived: false,
        archived_at: None,
        last_seen: now,
        last_interaction: to_stored_seconds(session.last_interaction_unix_seconds),
        archive_reason: None,
        archive_basis_interaction: None,
        active_override_interaction: None,
        notification_unread: false,
        notification_kind: None,
        notification_at: None,
    }
}

fn make_refreshed_row(row: &StoredSession, session: &Session, now: i64) -> (r: StoredSession)
    ensures
        r == refreshed_row(*row, *session, now),
{
    let interaction: i64 = to_stored_seconds(session.last_interaction_unix_seconds);
    let transition: Option<SessionTransitionKind> = recorded_kind(row, session);
    let woken: bool = match row.archive_reason {
        Some(ArchiveReason::Stale) => match row.archive_basis_interaction {
            Some(basis) => interaction > basis,
            None => interaction > -1,
        },
        _ => false,
    };
    StoredSession {
        session_id: row.session_id.clone(),
        snapshot: session.clone(),
        archived: if woken { false } else { row.archived },
        archived_at: if woken { None } else { row.archived_at },
        last_seen: now,
        last_interaction: interaction,
        archive_reason: if woken { None } else { row.archive_reason },
        archive_basis_interaction: if woken { None } else { row.archive_basis_interaction },
        active_override_interaction: match row.active_override_interaction {
            Some(pinned) => if interaction > pinned { None } else { Some(pinned) },
            None => None,
        },
        notification_unread: transition.is_some() || row.notification_unread,
        notification_kind: if transition.is_some() { transition } else { row.notification_kind },
        notification_at: if transition.is_some() { Some(now) } else { row.notification_at },
    }
}

fn make_history_entry(row: &StoredSession) -> (r: HistoryEntry)
    ensures
        is_history_entry(r, *row),
{
    HistoryEntry {
        session: row.snapshot.clone(),
        settled: row.archived,
        unread: row.notification_unread,
        notification_kind: match row.notification_kind {
            Some(kind) => Some(kind.as_str().to_owned()),
            None => None,
        },
        notification_at_unix_seconds: match row.notification_at {
            Some(at) => nonnegative_u64(at),
            None => None,
        },
        settled_at_unix_seconds: match row.archived_at {
            Some(at) => nonnegative_u64(at),
            None => None,
        },
        settle_reason: match row.archive_reason {
            Some(reason) => Some(reason.as_str().to_owned()),
            None => None,
        },
        last_seen_unix_seconds: seconds_or_zero(row.last_seen),
    }
}

// ---- the rules of the whole store ----

/// The identifiers of the rows.
pub open spec fn row_ids(rows: Seq<StoredSession>) -> Seq<Seq<char>> {
    rows.map_values(|row: StoredSession| row.session_id@)
}

/// Some row has the identifier.
pub open spec fn has_row(rows: Seq<StoredSession>, id: Seq<char>) -> bool {
    row_ids(rows).contains(id)
}

/// The rows after `change` on the one with the identifier.
pub open spec fn with_row(
    rows: Seq<StoredSession>,
    id: Seq<char>,
    change: spec_fn(StoredSession) -> StoredSession,
) -> Seq<StoredSession> {
    rows.map_values(|row: StoredSession| if row.session_id@ == id { change(row) } else { row })
}

/// The row with the identifier.
pub open spec fn row_of(rows: Seq<StoredSession>, id: Seq<char>) -> StoredSession {
    rows[row_ids(rows).index_of(id)]
}

/// The rows after one snapshot was recorded.
pub open spec fn recorded_one(
    rows: Seq<StoredSession>,
    session: Session,
    now: i64,
) -> Seq<StoredSession> {
    if is_legacy(session) {
        rows
    } else if has_row(rows, session.id@) {
        with_row(rows, session.id@, |row: StoredSession| refreshed_row(row, session, now))
    } else {
        rows.push(first_row(session, now))
    }
}

/// The attention that recording one snapshot asks for.
pub open spec fn recorded_one_kind(
    rows: Seq<StoredSession>,
    session: Session,
) -> Option<SessionTransitionKind> {
    if is_legacy(session) || !has_row(rows, session.id@) {
        None
    } else {
        recorded_transition(row_of(rows, session.id@), session)
    }
}

/// The transition that tells of it.
pub open spec fn transition_of(
    session: Session,
    kind: SessionTransitionKind,
    now: i64,
) -> SessionTransition {
    SessionTransition {
        session_id: session.id,
        title: session.title,
        host: session.host,
        kind,
        observed_at_unix_seconds: seconds_from_epoch(now),
    }
}

/// The rows after the snapshots were recorded one after the other.
pub open spec fn recorded(
    rows: Seq<StoredSession>,
    sessions: Seq<Session>,
    now: i64,
) -> Seq<StoredSession>
    decreases sessions.len(),
{
    if sessions.len() == 0 {
        rows
    } else {
        recorded_one(recorded(rows, sessions.drop_last(), now), sessions.last(), now)
    }
}

/// The transitions that recording the snapshots asks for, in their order.
pub open spec fn recorded_transitions(
    rows: Seq<StoredSession>,
    sessions: Seq<Session>,
    now: i64,
) -> Seq<SessionTransition>
    decreases sessions.len(),
{
    if sessions.len() == 0 {
        Seq::empty()
    } else {
        let before = recorded(rows, sessions.drop_last(), now);
        let earlier = recorded_transitions(rows, sessions.drop_last(), now);
        match recorded_one_kind(before, sessions.last()) {
            Some(kind) => earlier.push(transition_of(sessions.last(), kind, now)),
            None => earlier,
        }
    }
}

/// A row in the order of a view: the last seen first.
pub struct BySeen {
    pub row: StoredSession,
}

impl Ranked for BySeen {
    open spec fn at_most(self, other: Self) -> bool {
        self.row.last_seen >= other.row.last_seen
    }

    proof fn at_most_total(a: Self, b: Self) {
    }

    proof fn at_most_transitive(a: Self, b: Self, c: Self) {
    }

    fn is_at_most(&self, other: &Self) -> (r: bool) {
        self.row.last_seen >= other.row.last_seen
    }
}

/// A row in the order of the history: the latest interaction first, then the last seen.
pub struct ByRecency {
    pub row: StoredSession,
}

impl Ranked for ByRecency {
    open spec fn at_most(self, other: Self) -> bool {
        self.row.last_interaction > other.row.last_interaction || (self.row.last_interaction
            == other.row.last_interaction && self.row.last_seen >= other.row.last_seen)
    }

    proof fn at_most_total(a: Self, b: Self) {
    }

    proof fn at_most_transitive(a: Self, b: Self, c: Self) {
    }

    fn is_at_most(&self, other: &Self) -> (r: bool) {
        self.row.last_interaction > other.row.last_interaction || (self.row.last_interaction
            == other.row.last_interaction && self.row.last_seen >= other.row.last_seen)
    }
}

/// The rows of a view, in its order.
pub open spec fn loaded_rows(rows: Seq<StoredSession>, archived: bool) -> Seq<BySeen> {
    ranked(
        rows.filter(
            |row: StoredSession| row.archived == archived && !is_legacy(row.snapshot),
        ).map_values(|row: StoredSession| BySeen { row }),
    )
}

/// The sessions of a view: those archived, or those not, the last seen first.
pub open spec fn loaded(rows: Seq<StoredSession>, archived: bool) -> Seq<Session> {
    loaded_rows(rows, archived).map_values(|by: BySeen| by.row.snapshot)
}

/// The rows of the history, in its order.
pub open spec fn history_rows(rows: Seq<StoredSession>) -> Seq<ByRecency> {
    ranked(
        rows.filter(|row: StoredSession| !is_legacy(row.snapshot)).map_values(
            |row: StoredSession| ByRecency { row },
        ),
    )
}

/// The rows with unread attention.
pub open spec fn unread_rows(rows: Seq<StoredSession>) -> Seq<StoredSession> {
    rows.filter(|row: StoredSession| row.notification_unread)
}

/// The identifiers of the sessions with unread attention.
pub open spec fn unread_ids(rows: Seq<StoredSession>) -> Seq<Seq<char>> {
    row_ids(unread_rows(rows))
}

/// The rows after the stale ones were settled.
pub open spec fn settled(rows: Seq<StoredSession>, cutoff: int, now: i64) -> Seq<StoredSession> {
    rows.map_values(
        |row: StoredSession| if is_stale(row, cutoff) { settled_row(row, now) } else { row },
    )
}

/// A change that keeps the identifier keeps all identifiers.
proof fn lemma_with_row_ids(
    rows: Seq<StoredSession>,
    id: Seq<char>,
    change: spec_fn(StoredSession) -> StoredSession,
)
    requires
        forall|row: StoredSession| (#[trigger] change(row)).session_id == row.session_id,
    ensures
        row_ids(with_row(rows, id, change)) == row_ids(rows),
{
    assert(row_ids(with_row(rows, id, change)) =~= row_ids(rows));
}

/// Changing the one row with an identifier.
proof fn lemma_with_row_at(
    rows: Seq<StoredSession>,
    i: int,
    change: spec_fn(StoredSession) -> StoredSession,
)
    requires
        row_ids(rows).no_duplicates(),
        0 <= i < rows.len(),
    ensures
        with_row(rows, rows[i].session_id@, change) == rows.update(i, change(rows[i])),
        row_of(rows, rows[i].session_id@) == rows[i],
        has_row(rows, rows[i].session_id@),
{
    let ids = row_ids(rows);
    assert(ids[i] == rows[i].session_id@);
    assert(ids.contains(rows[i].session_id@));
    let k = ids.index_of(rows[i].session_id@);
    assert(ids[k] == ids[i]);
    assert forall|j: int| 0 <= j < rows.len() && j != i implies rows[j].session_id@
        != rows[i].session_id@ by {
        assert(ids[j] == rows[j].session_id@);
    }
    assert(with_row(rows, rows[i].session_id@, change) =~= rows.update(i, change(rows[i])));
}

/// Recording keeps identifiers distinct.
proof fn lemma_recorded_one_distinct(rows: Seq<StoredSession>, session: Session, now: i64)
    requires
        row_ids(rows).no_duplicates(),
    ensures
        row_ids(recorded_one(rows, session, now)).no_duplicates(),
{
    if !is_legacy(session) {
        if has_row(rows, session.id@) {
            lemma_with_row_ids(
                rows,
                session.id@,
                |row: StoredSession| refreshed_row(row, session, now),
            );
        } else {
            let row = first_row(session, now);
            assert(row_ids(rows.push(row)) =~= row_ids(rows).push(session.id@));
        }
    }
}

/// The inventory.
pub struct Store {
    rows: Vec<StoredSession>,
}

impl View for Store {
    type V = Seq<StoredSession>;

    closed spec fn view(&self) -> Seq<StoredSession> {
        self.rows@
    }
}

impl Store {
    #[verifier::type_invariant]
    spec fn distinct(self) -> bool {
        row_ids(self.rows@).no_duplicates()
    }

    /// A store without rows.
    pub fn new() -> (r: Self)
        ensures
            r@ == Seq::<StoredSession>::empty(),
    {
        let rows: Vec<StoredSession> = Vec::new();
        assert(row_ids(rows@) =~= Seq::<Seq<char>>::empty());
        Store { rows }
    }

    /// A store of the rows of a database, with the interaction times filled in that an older
    /// schema did not keep. Of two rows with one identifier there is no store.
    pub fn from_rows(rows: Vec<StoredSession>) -> (r: Option<Self>)
        ensures
            r is Some <==> row_ids(rows@).no_duplicates(),
            r matches Some(store) ==> store@ == rows@.map_values(
                |row: StoredSession| backfilled_row(row),
            ),
    {
        let mut out: Vec<StoredSession> = Vec::new();
        let mut i: usize = 0;
        while i < rows.len()
            invariant
                i <= rows@.len(),
                out@ == rows@.take(i as int).map_values(|row: StoredSession| backfilled_row(row)),
                row_ids(rows@.take(i as int)).no_duplicates(),
            decreases rows@.len() - i,
        {
            let mut j: usize = 0;
            while j < i
                invariant
                    j <= i < rows@.len(),
                    forall|k: int|
                        0 <= k < j ==> (#[trigger] rows@[k]).session_id@
                            != rows@[i as int].session_id@,
                decreases i - j,
            {
                if same(rows[j].session_id.as_str(), rows[i].session_id.as_str()) {
                    proof {
                        assert(row_ids(rows@)[j as int] == row_ids(rows@)[i as int]);
                    }
                    return None;
                }
                j += 1;
            }
            let mut row: StoredSession = rows[i].clone();
            if row.last_interaction == 0 {
                row.last_interaction = to_stored_seconds(
                    row.snapshot.last_interaction_unix_seconds,
                );
            }
            proof {
                let next = rows@.take(i + 1);
                assert(next =~= rows@.take(i as int).push(rows@[i as int]));
                let ids = row_ids(rows@.take(i as int));
                assert(row_ids(next) =~= ids.push(rows@[i as int].session_id@));
                assert forall|k: int| 0 <= k < ids.len() implies ids[k]
                    != rows@[i as int].session_id@ by {
                    assert(rows@[k].session_id@ != rows@[i as int].session_id@);
                }
            }
            out.push(row);
            i += 1;
            assert(out@ =~= rows@.take(i as int).map_values(
                |row: StoredSession| backfilled_row(row),
            ));
        }
        proof {
            assert(rows@.take(i as int) =~= rows@);
            assert(row_ids(out@) =~= row_ids(rows@));
        }
        Some(Store { rows: out })
    }

    /// The rows, no two of which have one identifier, to be written to a database.
    pub fn rows(&self) -> (r: &Vec<StoredSession>)
        ensures
            r@ == self@,
            row_ids(r@).no_duplicates(),
    {
        proof {
            use_type_invariant(self);
        }
        &self.rows
    }

    /// The position of the row with an identifier.
    fn position(&self, session_id: &str) -> (r: Option<usize>)
        ensures
            r matches Some(i) ==> i < self@.len() && self@[i as int].session_id@ == session_id@
                && has_row(self@, session_id@),
            r is None ==> !has_row(self@, session_id@),
    {
        let mut i: usize = 0;
        while i < self.rows.len()
            invariant
                i <= self.rows@.len(),
                forall|j: int| 0 <= j < i ==> (#[trigger] self.rows@[j]).session_id@ != session_id@,
            decreases self.rows@.len() - i,
        {
            if same(self.rows[i].session_id.as_str(), session_id) {
                assert(row_ids(self.rows@)[i as int] == session_id@);
                return Some(i);
            }
            i += 1;
        }
        assert forall|j: int| 0 <= j < row_ids(self.rows@).len() implies row_ids(self.rows@)[j]
            != session_id@ by {
            assert(self.rows@[j].session_id@ != session_id@);
        }
        None
    }

    /// Puts another row in place of the one at `i`, under the same identifier.
    fn replace(&mut self, i: usize, row: StoredSession)
        requires
            i < old(self)@.len(),
            row.session_id == old(self)@[i as int].session_id,
        ensures
            final(self)@ == old(self)@.update(i as int, row),
    {
        proof {
            use_type_invariant(&*self);
        }
        let ghost before = self.rows@;
        let mut rows: Vec<StoredSession> = Vec::new();
        std::mem::swap(&mut rows, &mut self.rows);
        rows.set(i, row);
        assert(row_ids(rows@) =~= row_ids(before));
        self.rows = rows;
    }

    /// Records one snapshot.
    fn record_one(&mut self, session: &Session, now: i64) -> (r: Option<SessionTransitionKind>)
        ensures
            final(self)@ == recorded_one(old(self)@, *session, now),
            r == recorded_one_kind(old(self)@, *session),
    {
        proof {
            use_type_invariant(&*self);
        }
        if is_legacy_omp_subagent(session) {
            return None;
        }
        let found: Option<usize> = self.position(session.id.as_str());
        match found {
            Some(i) => {
                proof {
                    lemma_with_row_at(
                        self@,
                        i as int,
                        |row: StoredSession| refreshed_row(row, *session, now),
                    );
                }
                let kind: Option<SessionTransitionKind> = recorded_kind(&self.rows[i], session);
                let row: StoredSession = make_refreshed_row(&self.rows[i], session, now);
                self.replace(i, row);
                kind
            },
            None => {
                let ghost before = self.rows@;
                let row: StoredSession = make_first_row(session, now);
                let mut rows: Vec<StoredSession> = Vec::new();
                std::mem::swap(&mut rows, &mut self.rows);
                rows.push(row);
                proof {
                    lemma_recorded_one_distinct(before, *session, now);
                }
                self.rows = rows;
                None
            },
        }
    }

    /// Records snapshots at the given time, and returns the transitions that ask for
    /// attention. Snapshots replace native metadata and leave the user's choices alone.
    pub fn record(&mut self, sessions: &Vec<Session>, now_unix_seconds: i64) -> (r: Vec<
        SessionTransition,
    >)
        ensures
            final(self)@ == recorded(old(self)@, sessions@, now_unix_seconds),
            r@ == recorded_transitions(old(self)@, sessions@, now_unix_seconds),
    {
        let ghost before = self@;
        let mut transitions: Vec<SessionTransition> = Vec::new();
        let mut i: usize = 0;
        assert(sessions@.take(0) =~= Seq::<Session>::empty());
        while i < sessions.len()
            invariant
                i <= sessions@.len(),
                self@ == recorded(before, sessions@.take(i as int), now_unix_seconds),
                transitions@ == recorded_transitions(
                    before,
                    sessions@.take(i as int),
                    now_unix_seconds,
                ),
            decreases sessions@.len() - i,
        {
            let session: &Session = &sessions[i];
            proof {
                assert(sessions@.take(i + 1).drop_last() =~= sessions@.take(i as int));
                assert(sessions@.take(i + 1).last() == *session);
            }
            match self.record_one(session, now_unix_seconds) {
                Some(kind) => {
                    transitions.push(
                        SessionTransition {
                            session_id: session.id.clone(),
                            title: session.title.clone(),
                            host: session.host.clone(),
                            kind,
                            observed_at_unix_seconds: seconds_or_zero(now_unix_seconds),
                        },
                    );
                },
                None => {},
            }
            i += 1;
        }
        assert(sessions@.take(i as int) =~= sessions@);
        transitions
    }

    /// The sessions that are archived, or those that are not, the last seen first.
    pub fn load(&self, archived: bool) -> (r: Vec<Session>)
        ensures
            r@ == loaded(self@, archived),
    {
        let ghost keep = |row: StoredSession|
            row.archived == archived && !is_legacy(row.snapshot);
        let ghost wrap = |row: StoredSession| BySeen { row };
        let mut kept: Vec<BySeen> = Vec::new();
        let mut i: usize = 0;
        assert(self.rows@.take(0).filter(keep).map_values(wrap) =~= Seq::<BySeen>::empty()) by {
            assert(self.rows@.take(0).filter(keep) =~= Seq::<StoredSession>::empty()) by {
                reveal(Seq::filter);
            }
        }
        while i < self.rows.len()
            invariant
                i <= self.rows@.len(),
                keep == (|row: StoredSession|
                    row.archived == archived && !is_legacy(row.snapshot)),
                wrap == (|row: StoredSession| BySeen { row }),
                kept@ == self.rows@.take(i as int).filter(keep).map_values(wrap),
            decreases self.rows@.len() - i,
        {
            let row: &StoredSession = &self.rows[i];
            proof {
                lemma_kept(self.rows@, i as int, keep, wrap);
            }
            if row.archived == archived && !is_legacy_omp_subagent(&row.snapshot) {
                kept.push(BySeen { row: row.clone() });
            }
            i += 1;
        }
        assert(self.rows@.take(i as int) =~= self.rows@);
        let sorted: Vec<BySeen> = stable_sort(kept);
        let mut r: Vec<Session> = Vec::new();
        let mut k: usize = 0;
        while k < sorted.len()
            invariant
                k <= sorted@.len(),
                r@ == sorted@.take(k as int).map_values(|by: BySeen| by.row.snapshot),
            decreases sorted@.len() - k,
        {
            r.push(sorted[k].row.snapshot.clone());
            k += 1;
            assert(r@ =~= sorted@.take(k as int).map_values(|by: BySeen| by.row.snapshot));
        }
        assert(sorted@.take(k as int) =~= sorted@);
        r
    }

    /// All sessions, the latest interaction first.
    pub fn load_history(&self) -> (r: Vec<HistoryEntry>)
        ensures
            r@.len() == history_rows(self@).len(),
            forall|i: int|
                0 <= i < r@.len() ==> is_history_entry(
                    #[trigger] r@[i],
                    history_rows(self@)[i].row,
                ),
    {
        let ghost keep = |row: StoredSession| !is_legacy(row.snapshot);
        let ghost wrap = |row: StoredSession| ByRecency { row };
        let mut kept: Vec<ByRecency> = Vec::new();
        let mut i: usize = 0;
        assert(self.rows@.take(0).filter(keep).map_values(wrap) =~= Seq::<ByRecency>::empty()) by {
            assert(self.rows@.take(0).filter(keep) =~= Seq::<StoredSession>::empty()) by {
                reveal(Seq::filter);
            }
        }
        while i < self.rows.len()
            invariant
                i <= self.rows@.len(),
                keep == (|row: StoredSession| !is_legacy(row.snapshot)),
                wrap == (|row: StoredSession| ByRecency { row }),
                kept@ == self.rows@.take(i as int).filter(keep).map_values(wrap),
            decreases self.rows@.len() - i,
        {
            let row: &StoredSession = &self.rows[i];
            proof {
                lemma_kept(self.rows@, i as int, keep, wrap);
            }
            if !is_legacy_omp_subagent(&row.snapshot) {
                kept.push(ByRecency { row: row.clone() });
            }
            i += 1;
        }
        assert(self.rows@.take(i as int) =~= self.rows@);
        let sorted: Vec<ByRecency> = stable_sort(kept);
        let mut r: Vec<HistoryEntry> = Vec::new();
        let mut k: usize = 0;
        while k < sorted.len()
            invariant
                k <= sorted@.len(),
                r@.len() == k,
                forall|j: int| 0 <= j < k ==> is_history_entry(#[trigger] r@[j], sorted@[j].row),
            decreases sorted@.len() - k,
        {
            let entry: HistoryEntry = make_history_entry(&sorted[k].row);
            r.push(entry);
            k += 1;
        }
        r
    }

    /// Archives or restores a session on the user's behalf.
    pub fn set_archived(
        &mut self,
        session_id: &str,
        archived: bool,
        now_unix_seconds: i64,
    ) -> (r: Result<(), StoreError>)
        ensures
            r is Ok <==> has_row(old(self)@, session_id@),
            r matches Err(error) ==> error == StoreError::UnknownSession,
            final(self)@ == with_row(
                old(self)@,
                session_id@,
                |row: StoredSession| archived_row(row, archived, now_unix_seconds),
            ),
    {
        proof {
            use_type_invariant(&*self);
        }
        let ghost change = |row: StoredSession| archived_row(row, archived, now_unix_seconds);
        let found: Option<usize> = self.position(session_id);
        match found {
            None => {
                proof {
                    lemma_with_row_none(self@, session_id@, change);
                }
                Err(StoreError::UnknownSession)
            },
            Some(i) => {
                proof {
                    lemma_with_row_at(self@, i as int, change);
                }
                let mut row: StoredSession = self.rows[i].clone();
                row.archived = archived;
                row.archived_at = if archived { Some(now_unix_seconds) } else { None };
                row.archive_reason = if archived { Some(ArchiveReason::Manual) } else { None };
                row.archive_basis_interaction = None;
                row.active_override_interaction = if archived {
                    None
                } else {
                    Some(row.last_interaction)
                };
                row.notification_unread = if archived { false } else { row.notification_unread };
                self.replace(i, row);
                Ok(())
            },
        }
    }

    /// The identifiers of the sessions with unread attention.
    pub fn unread_session_ids(&self) -> (r: Vec<String>)
        ensures
            texts(r@) == unread_ids(self@),
    {
        let ghost keep = |row: StoredSession| row.notification_unread;
        let ghost wrap = |row: StoredSession| row.session_id@;
        let mut r: Vec<String> = Vec::new();
        let mut i: usize = 0;
        assert(self.rows@.take(0).filter(keep).map_values(wrap) =~= Seq::<Seq<char>>::empty()) by {
            assert(self.rows@.take(0).filter(keep) =~= Seq::<StoredSession>::empty()) by {
                reveal(Seq::filter);
            }
        }
        assert(texts(r@) =~= Seq::<Seq<char>>::empty());
        while i < self.rows.len()
            invariant
                i <= self.rows@.len(),
                keep == (|row: StoredSession| row.notification_unread),
                wrap == (|row: StoredSession| row.session_id@),
                texts(r@) == self.rows@.take(i as int).filter(keep).map_values(wrap),
            decreases self.rows@.len() - i,
        {
            let row: &StoredSession = &self.rows[i];
            proof {
                lemma_kept(self.rows@, i as int, keep, wrap);
            }
            if row.notification_unread {
                let id: String = row.session_id.clone();
                proof {
                    lemma_texts_push(r@, id);
                }
                r.push(id);
            }
            i += 1;
        }
        assert(self.rows@.take(i as int) =~= self.rows@);
        r
    }

    /// Marks a session's attention read, and says whether it was unread.
    pub fn acknowledge(&mut self, session_id: &str) -> (r: bool)
        ensures
            r == unread_ids(old(self)@).contains(session_id@),
            final(self)@ == with_row(
                old(self)@,
                session_id@,
                |row: StoredSession| acknowledged_row(row),
            ),
    {
        proof {
            use_type_invariant(&*self);
        }
        let ghost change = |row: StoredSession| acknowledged_row(row);
        let found: Option<usize> = self.position(session_id);
        match found {
            None => {
                proof {
                    lemma_with_row_none(self@, session_id@, change);
                    lemma_unread(self@, session_id@);
                }
                false
            },
            Some(i) => {
                proof {
                    lemma_with_row_at(self@, i as int, change);
                    lemma_unread(self@, session_id@);
                }
                let unread: bool = self.rows[i].notification_unread;
                let mut row: StoredSession = self.rows[i].clone();
                row.notification_unread = false;
                self.replace(i, row);
                unread
            },
        }
    }

    /// Settles the sessions without interaction for the given time, and says how many.
    pub fn auto_settle_stale_at(
        &mut self,
        now_unix_seconds: i64,
        stale_after_seconds: u64,
    ) -> (r: usize)
        ensures
            final(self)@ == settled(
                old(self)@,
                stale_cutoff(now_unix_seconds, stale_after_seconds),
                now_unix_seconds,
            ),
            r == old(self)@.filter(
                |row: StoredSession|
                    is_stale(row, stale_cutoff(now_unix_seconds, stale_after_seconds)),
            ).len(),
    {
        let after: i64 = to_stored_seconds(stale_after_seconds);
        let difference: i128 = now_unix_seconds as i128 - after as i128;
        let cutoff: i64 = if difference < i64::MIN as i128 {
            i64::MIN
        } else {
            difference as i64
        };
        let ghost bound = stale_cutoff(now_unix_seconds, stale_after_seconds);
        assert(cutoff == bound);
        let ghost before = self@;
        let ghost stale = |row: StoredSession| is_stale(row, bound);
        let mut count: usize = 0;
        let mut i: usize = 0;
        assert(before.take(0).filter(stale) =~= Seq::<StoredSession>::empty()) by {
            reveal(Seq::filter);
        }
        assert(settled(before.take(0), bound, now_unix_seconds) + before.skip(0) =~= before);
        while i < self.rows.len()
            invariant
                cutoff == bound,
                stale == (|row: StoredSession| is_stale(row, bound)),
                i <= before.len(),
                self@ == settled(before.take(i as int), bound, now_unix_seconds) + before.skip(
                    i as int,
                ),
                count == before.take(i as int).filter(stale).len(),
                count <= i,
            decreases before.len() - i,
        {
            proof {
                assert(self@[i as int] == before[i as int]);
                assert(before.take(i + 1) =~= before.take(i as int).push(before[i as int]));
                before.take(i as int).lemma_filter_push(before[i as int], stale);
            }
            let row: &StoredSession = &self.rows[i];
            let pinned: bool = match row.active_override_interaction {
                Some(at) => at == row.last_interaction,
                None => false,
            };
            if !row.archived && !row.notification_unread && row.last_interaction <= cutoff && !pinned
                && row.snapshot.activity.can_auto_settle() {
                let mut next: StoredSession = row.clone();
                next.archived = true;
                next.archived_at = Some(now_unix_seconds);
                next.archive_reason = Some(ArchiveReason::Stale);
                next.archive_basis_interaction = Some(next.last_interaction);
                self.replace(i, next);
                count += 1;
            }
            i += 1;
            assert(self@ =~= settled(before.take(i as int), bound, now_unix_seconds) + before.skip(
                i as int,
            ));
        }
        assert(before.take(i as int) =~= before);
        assert(self@ =~= settled(before, bound, now_unix_seconds));
        count
    }
}

/// One more row under a filter and a map.
proof fn lemma_kept<B>(
    rows: Seq<StoredSession>,
    i: int,
    keep: spec_fn(StoredSession) -> bool,
    wrap: spec_fn(StoredSession) -> B,
)
    requires
        0 <= i < rows.len(),
    ensures
        rows.take(i + 1).filter(keep).map_values(wrap) == if keep(rows[i]) {
            rows.take(i).filter(keep).map_values(wrap).push(wrap(rows[i]))
        } else {
            rows.take(i).filter(keep).map_values(wrap)
        },
{
    assert(rows.take(i + 1) =~= rows.take(i).push(rows[i]));
    rows.take(i).lemma_filter_push(rows[i], keep);
    let before = rows.take(i).filter(keep);
    assert(before.push(rows[i]).map_values(wrap) =~= before.map_values(wrap).push(wrap(rows[i])));
}

/// Changing a row that is not there changes nothing.
proof fn lemma_with_row_none(
    rows: Seq<StoredSession>,
    id: Seq<char>,
    change: spec_fn(StoredSession) -> StoredSession,
)
    requires
        !has_row(rows, id),
    ensures
        with_row(rows, id, change) == rows,
{
    assert forall|j: int| 0 <= j < rows.len() implies rows[j].session_id@ != id by {
        assert(row_ids(rows)[j] == rows[j].session_id@);
    }
    assert(with_row(rows, id, change) =~= rows);
}

/// Which sessions are unread.
proof fn lemma_unread(rows: Seq<StoredSession>, id: Seq<char>)
    requires
        row_ids(rows).no_duplicates(),
    ensures
        unread_ids(rows).contains(id) <==> has_row(rows, id) && row_of(rows, id).notification_unread,
{
    let keep = |row: StoredSession| row.notification_unread;
    let kept = rows.filter(keep);
    if unread_ids(rows).contains(id) {
        let k = choose|k: int| 0 <= k < unread_ids(rows).len() && unread_ids(rows)[k] == id;
        rows.lemma_filter_pred(keep, k);
        assert(kept[k].session_id@ == id);
        assert(kept.contains(kept[k]));
        rows.lemma_filter_contains_rev(keep, kept[k]);
        let j = choose|j: int| 0 <= j < rows.len() && rows[j] == kept[k];
        lemma_with_row_at(rows, j, |row: StoredSession| row);
    }
    if has_row(rows, id) && row_of(rows, id).notification_unread {
        let j = row_ids(rows).index_of(id);
        rows.lemma_filter_contains(keep, j);
        let k = choose|k: int| 0 <= k < kept.len() && kept[k] == rows[j];
        assert(unread_ids(rows)[k] == id);
    }
}

/// The file in which the state is kept: the one named for it, else one in the state
/// directory, else one below the home directory.
pub fn state_path(
    named: Option<String>,
    xdg_state_home: Option<String>,
    home: Option<String>,
) -> (r: Result<String, StoreError>)
    ensures
        r is Err <==> named is None && xdg_state_home is None && home is None,
        r matches Err(error) ==> error == StoreError::MissingStateDirectory,
        named matches Some(path) ==> (r matches Ok(file) && file@ == path@),
        named is None ==> (xdg_state_home matches Some(path) ==> (r matches Ok(file) && file@
            == join_path_text(join_path_text(path@, "rollcall"@), "rollcall.db"@))),
        named is None && xdg_state_home is None ==> (home matches Some(path) ==> (
        r matches Ok(file) && file@ == join_path_text(
            path@,
            ".local/state/rollcall/rollcall.db"@,
        ))),
{
    if let Some(path) = named {
        return Ok(path);
    }
    if let Some(path) = xdg_state_home {
        let directory: String = join_path(path.as_str(), "rollcall");
        return Ok(join_path(directory.as_str(), "rollcall.db"));
    }
    match home {
        Some(path) => Ok(join_path(path.as_str(), ".local/state/rollcall/rollcall.db")),
        None => Err(StoreError::MissingStateDirectory),
    }
}

// ---- laws ----

/// A refresh updates native metadata without clearing the user's archive choice, and asks
/// for no attention, whatever the session does.
pub proof fn refresh_keeps_a_manual_archive(row: StoredSession, session: Session, now: i64)
    requires
        row.archived,
        row.archive_reason == Some(ArchiveReason::Manual),
    ensures
        refreshed_row(row, session, now).snapshot == session,
        refreshed_row(row, session, now).archived,
        refreshed_row(row, session, now).archive_reason == Some(ArchiveReason::Manual),
        refreshed_row(row, session, now).archived_at == row.archived_at,
        refreshed_row(row, session, now).notification_unread == row.notification_unread,
        recorded_transition(row, session) is None,
{
}

/// A session that was settled for want of interaction wakes when, and only when, a later
/// interaction is recorded.
pub proof fn a_settled_session_wakes_with_new_activity(
    row: StoredSession,
    settled_at: i64,
    session: Session,
    now: i64,
)
    ensures
        refreshed_row(settled_row(row, settled_at), session, now).archived <==> stored_seconds(
            session.last_interaction_unix_seconds,
        ) <= row.last_interaction,
{
}

/// A manual archive is not undone by new activity.
pub proof fn a_manual_archive_never_wakes(
    row: StoredSession,
    archived_at: i64,
    session: Session,
    now: i64,
)
    ensures
        refreshed_row(archived_row(row, true, archived_at), session, now).archived,
{
}

/// A restored session stays in the active view, whatever the cutoff, until its interaction
/// advances; once it does, only the cutoff decides.
pub proof fn a_restored_session_stays_until_activity_advances(
    row: StoredSession,
    restored_at: i64,
    session: Session,
    now: i64,
    cutoff: int,
)
    ensures
        !is_stale(archived_row(row, false, restored_at), cutoff),
        stored_seconds(session.last_interaction_unix_seconds) == row.last_interaction ==> !is_stale(
            refreshed_row(archived_row(row, false, restored_at), session, now),
            cutoff,
        ),
        stored_seconds(session.last_interaction_unix_seconds) > row.last_interaction
            ==> refreshed_row(
            archived_row(row, false, restored_at),
            session,
            now,
        ).active_override_interaction is None,
{
}

/// A session with unread attention, or one that works, waits or has failed, is never settled.
pub proof fn attention_never_settles(row: StoredSession, cutoff: int)
    requires
        row.notification_unread || row.snapshot.activity is Working
            || row.snapshot.activity is WaitingApproval || row.snapshot.activity is WaitingInput
            || row.snapshot.activity is Failed,
    ensures
        !is_stale(row, cutoff),
{
}

/// Archiving and restoring keep the snapshot and the native times.
pub proof fn archiving_keeps_the_snapshot(row: StoredSession, archived: bool, now: i64)
    ensures
        archived_row(row, archived, now).snapshot == row.snapshot,
        archived_row(row, archived, now).session_id == row.session_id,
        archived_row(row, archived, now).last_interaction == row.last_interaction,
        archived_row(row, archived, now).last_seen == row.last_seen,
{
}

/// The position of a known session.
proof fn lemma_row_index(rows: Seq<StoredSession>, id: Seq<char>) -> (i: int)
    requires
        row_ids(rows).no_duplicates(),
        has_row(rows, id),
    ensures
        0 <= i < rows.len(),
        rows[i].session_id@ == id,
        row_of(rows, id) == rows[i],
{
    row_ids(rows).index_of(id)
}

/// Recording one snapshot leaves the rows of all other sessions as they were.
pub proof fn recording_leaves_other_sessions_alone(
    rows: Seq<StoredSession>,
    session: Session,
    now: i64,
    i: int,
)
    requires
        0 <= i < rows.len(),
        rows[i].session_id@ != session.id@,
    ensures
        i < recorded_one(rows, session, now).len(),
        recorded_one(rows, session, now)[i] == rows[i],
{
}

/// A change of activity asks for attention once: recording the same snapshot again asks
/// for none.
pub proof fn attention_is_asked_for_once(rows: Seq<StoredSession>, session: Session, now: i64)
    requires
        row_ids(rows).no_duplicates(),
    ensures
        recorded_one_kind(recorded_one(rows, session, now), session) is None,
{
    if !is_legacy(session) {
        let after = recorded_one(rows, session, now);
        lemma_recorded_one_distinct(rows, session, now);
        if has_row(rows, session.id@) {
            let i = lemma_row_index(rows, session.id@);
            let change = |row: StoredSession| refreshed_row(row, session, now);
            lemma_with_row_at(rows, i, change);
            assert(after[i].session_id@ == session.id@);
            lemma_with_row_at(after, i, change);
        } else {
            lemma_with_row_at(after, rows.len() as int, |row: StoredSession| row);
        }
    }
}

/// After an acknowledgement the session is read, so a second one changes nothing.
pub proof fn acknowledgement_is_idempotent(rows: Seq<StoredSession>, id: Seq<char>)
    requires
        row_ids(rows).no_duplicates(),
    ensures
        !unread_ids(with_row(rows, id, |row: StoredSession| acknowledged_row(row))).contains(id),
        with_row(
            with_row(rows, id, |row: StoredSession| acknowledged_row(row)),
            id,
            |row: StoredSession| acknowledged_row(row),
        ) == with_row(rows, id, |row: StoredSession| acknowledged_row(row)),
{
    let change = |row: StoredSession| acknowledged_row(row);
    let after = with_row(rows, id, change);
    lemma_with_row_ids(rows, id, change);
    lemma_unread(after, id);
    if has_row(after, id) {
        let i = lemma_row_index(after, id);
        assert(rows[i].session_id@ == row_ids(rows)[i]);
        assert(row_ids(after)[i] == id);
        assert(!after[i].notification_unread);
    }
    assert(with_row(after, id, change) =~= after);
}

/// Settling twice with one cutoff is settling once.
pub proof fn settling_is_idempotent(
    rows: Seq<StoredSession>,
    cutoff: int,
    now: i64,
    later: i64,
)
    ensures
        settled(settled(rows, cutoff, now), cutoff, later) == settled(rows, cutoff, now),
{
    assert(settled(settled(rows, cutoff, now), cutoff, later) =~= settled(rows, cutoff, now));
}

/// A session stands in the view of its archive state, and in no view where it is a subagent
/// without a title.
pub proof fn every_session_is_in_the_view_of_its_state(
    rows: Seq<StoredSession>,
    i: int,
    archived: bool,
)
    requires
        0 <= i < rows.len(),
    ensures
        loaded_rows(rows, archived).contains(BySeen { row: rows[i] }) <==> rows[i].archived
            == archived && !is_legacy(rows[i].snapshot),
{
    let keep = |row: StoredSession| row.archived == archived && !is_legacy(row.snapshot);
    let wrap = |row: StoredSession| BySeen { row };
    let kept = rows.filter(keep);
    let wrapped = kept.map_values(wrap);
    let target = BySeen { row: rows[i] };
    crate::order::ranked_contains(wrapped, target);
    if keep(rows[i]) {
        rows.lemma_filter_contains(keep, i);
        let k = choose|k: int| 0 <= k < kept.len() && kept[k] == rows[i];
        assert(wrapped[k] == target);
    }
    if wrapped.contains(target) {
        let k = choose|k: int| 0 <= k < wrapped.len() && wrapped[k] == target;
        rows.lemma_filter_pred(keep, k);
        assert(kept[k] == rows[i]);
    }
}

} // verus!
