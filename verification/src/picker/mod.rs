//! The interactive picker: its state, and what it asks to be done outside.

pub mod dashboard;
pub mod input;
pub mod popup;
pub mod refresh;
pub mod targets;
pub mod turns;
pub mod view;

use vstd::prelude::*;

use crate::agents::AgentError;
use crate::domain::{LiveObservation, Session};
use crate::hosts::HostDiscoveryError;
use crate::keyed::{StringMap, StringSet};
use crate::reconnect::HostReconnectState;
use crate::store::{SessionTransition, Store, StoreError, StoredSession};
use crate::text::{same, texts};

verus! {

/// The name of the filter that shows every host.
pub const ALL_HOSTS: &'static str = "all";

/// The seconds of a day.
pub const DAY_SECONDS: u64 = 86_400;

/// The seconds of a week.
pub const WEEK_SECONDS: u64 = 604_800;

/// How long a notice is shown, in milliseconds.
pub const NOTICE_DURATION: u64 = 8_000;

/// How often the local processes are looked at, in milliseconds.
pub const LOCAL_ACTIVITY_POLL_INTERVAL: u64 = 2_000;

/// How often the processes of another host are looked at, in milliseconds.
pub const REMOTE_ACTIVITY_POLL_INTERVAL: u64 = 5_000;

/// How many hosts are asked at a time.
pub const MAX_CONCURRENT_HOST_REFRESHES: usize = 4;

/// How many lines of a pane are captured for a preview.
pub const PREVIEW_CAPTURE_LINES: usize = 120;

/// Why the picker could not go on.
#[derive(Debug, Eq, PartialEq)]
pub enum PickerError {
    Agent(AgentError),
    HostDiscovery(HostDiscoveryError),
    Io(String),
    PopupFailed(String),
    Store(StoreError),
}

impl PickerError {
    /// What the user is told.
    pub open spec fn text(self) -> Seq<char> {
        match self {
            PickerError::Agent(error) => error.text(),
            PickerError::HostDiscovery(error) => error.text(),
            PickerError::Io(error) => "terminal picker failed: "@ + error@,
            PickerError::PopupFailed(message) => "tmux popup failed: "@ + message@,
            PickerError::Store(error) => error.text(),
        }
    }

    /// What the user is told.
    pub fn message(&self) -> (r: String)
        ensures
            r@ == self.text(),
    {
        match self {
            PickerError::Agent(error) => error.message(),
            PickerError::HostDiscovery(error) => error.message(),
            PickerError::Io(error) => {
                let mut r: String = "terminal picker failed: ".to_owned();
                r.append(error.as_str());
                r
            },
            PickerError::PopupFailed(message) => {
                let mut r: String = "tmux popup failed: ".to_owned();
                r.append(message.as_str());
                r
            },
            PickerError::Store(error) => error.message(),
        }
    }
}

/// The time by two clocks: the seconds since the epoch, and the milliseconds of a clock that
/// never goes back.
#[derive(Clone, Copy, Debug, Eq, PartialEq, Structural)]
pub struct Clock {
    pub unix_seconds: u64,
    pub monotonic_millis: u64,
}

/// The parts of the inventory by age.
#[derive(Clone, Copy, Debug, Eq, PartialEq, Structural)]
pub enum DashboardSection {
    Current,
    LastDay,
    LastWeek,
    Archive,
}

impl DashboardSection {
    /// The heading of a part.
    pub open spec fn heading(self) -> Seq<char> {
        match self {
            DashboardSection::Current => "Currently active"@,
            DashboardSection::LastDay => "Last day"@,
            DashboardSection::LastWeek => "Last week"@,
            DashboardSection::Archive => "Archive"@,
        }
    }

    /// The heading of a part.
    pub fn label(self) -> (r: &'static str)
        ensures
            r@ == self.heading(),
    {
        match self {
            DashboardSection::Current => "Currently active",
            DashboardSection::LastDay => "Last day",
            DashboardSection::LastWeek => "Last week",
            DashboardSection::Archive => "Archive",
        }
    }
}

/// Which parts are expanded.
#[derive(Clone, Copy, Debug, Eq, PartialEq, Structural)]
pub struct SectionSet {
    pub current: bool,
    pub last_day: bool,
    pub last_week: bool,
    pub archive: bool,
}

impl SectionSet {
    /// The part is among them.
    pub open spec fn has(self, section: DashboardSection) -> bool {
        match section {
            DashboardSection::Current => self.current,
            DashboardSection::LastDay => self.last_day,
            DashboardSection::LastWeek => self.last_week,
            DashboardSection::Archive => self.archive,
        }
    }

    /// The parts, with or without one of them.
    pub open spec fn with(self, section: DashboardSection, member: bool) -> SectionSet {
        match section {
            DashboardSection::Current => SectionSet { current: member, ..self },
            DashboardSection::LastDay => SectionSet { last_day: member, ..self },
            DashboardSection::LastWeek => SectionSet { last_week: member, ..self },
            DashboardSection::Archive => SectionSet { archive: member, ..self },
        }
    }

    /// Whether a part is among them.
    pub fn contains(&self, section: DashboardSection) -> (r: bool)
        ensures
            r == self.has(section),
    {
        match section {
            DashboardSection::Current => self.current,
            DashboardSection::LastDay => self.last_day,
            DashboardSection::LastWeek => self.last_week,
            DashboardSection::Archive => self.archive,
        }
    }

    fn set(&mut self, section: DashboardSection, member: bool)
        ensures
            *final(self) == old(self).with(section, member),
    {
        match section {
            DashboardSection::Current => {
                self.current = member;
            },
            DashboardSection::LastDay => {
                self.last_day = member;
            },
            DashboardSection::LastWeek => {
                self.last_week = member;
            },
            DashboardSection::Archive => {
                self.archive = member;
            },
        }
    }

    /// Adds a part.
    pub fn insert(&mut self, section: DashboardSection)
        ensures
            *final(self) == old(self).with(section, true),
    {
        self.set(section, true);
    }

    /// Takes a part out, and says whether it was there.
    pub fn remove(&mut self, section: DashboardSection) -> (r: bool)
        ensures
            r == old(self).has(section),
            *final(self) == old(self).with(section, false),
    {
        let r: bool = self.contains(section);
        self.set(section, false);
        r
    }
}

/// A session by its place in the inventory.
#[derive(Clone, Copy, Debug, Eq, PartialEq, Structural)]
pub enum SessionRef {
    Active(usize),
    Settled(usize),
}

/// A group of sessions: those of a host, or those of a host in one directory.
#[derive(Debug, Eq, PartialEq)]
pub enum DashboardGroupKey {
    Host { section: DashboardSection, host: String },
    Project { section: DashboardSection, host: String, cwd: String },
}

/// A group of sessions, as text.
#[verifier::ext_equal]
pub enum GroupKeyView {
    Host { section: DashboardSection, host: Seq<char> },
    Project { section: DashboardSection, host: Seq<char>, cwd: Seq<char> },
}

impl View for DashboardGroupKey {
    type V = GroupKeyView;

    open spec fn view(&self) -> GroupKeyView {
        match self {
            DashboardGroupKey::Host { section, host } => GroupKeyView::Host {
                section: *section,
                host: host@,
            },
            DashboardGroupKey::Project { section, host, cwd } => GroupKeyView::Project {
                section: *section,
                host: host@,
                cwd: cwd@,
            },
        }
    }
}

impl Clone for DashboardGroupKey {
    fn clone(&self) -> (r: Self)
        ensures
            r == *self,
    {
        match self {
            DashboardGroupKey::Host { section, host } => DashboardGroupKey::Host {
                section: *section,
                host: host.clone(),
            },
            DashboardGroupKey::Project { section, host, cwd } => DashboardGroupKey::Project {
                section: *section,
                host: host.clone(),
                cwd: cwd.clone(),
            },
        }
    }
}

/// Whether two keys name one group.
pub fn same_group(a: &DashboardGroupKey, b: &DashboardGroupKey) -> (r: bool)
    ensures
        r == (a@ == b@),
{
    match (a, b) {
        (
            DashboardGroupKey::Host { section: s, host: h },
            DashboardGroupKey::Host { section: t, host: i },
        ) => *s == *t && same(h.as_str(), i.as_str()),
        (
            DashboardGroupKey::Project { section: s, host: h, cwd: c },
            DashboardGroupKey::Project { section: t, host: i, cwd: d },
        ) => *s == *t && same(h.as_str(), i.as_str()) && same(c.as_str(), d.as_str()),
        _ => false,
    }
}

/// A set of groups.
pub struct GroupSet {
    keys: Vec<DashboardGroupKey>,
}

/// Groups as text.
pub open spec fn group_views(keys: Seq<DashboardGroupKey>) -> Seq<GroupKeyView> {
    keys.map_values(|key: DashboardGroupKey| key@)
}

impl View for GroupSet {
    type V = Set<GroupKeyView>;

    closed spec fn view(&self) -> Set<GroupKeyView> {
        group_views(self.keys@).to_set()
    }
}

impl GroupSet {
    /// The empty set.
    pub fn new() -> (r: Self)
        ensures
            r@ == Set::<GroupKeyView>::empty(),
    {
        let r = GroupSet { keys: Vec::new() };
        assert(r@ =~= Set::<GroupKeyView>::empty());
        r
    }

    /// Whether a group is in the set.
    pub fn contains(&self, key: &DashboardGroupKey) -> (r: bool)
        ensures
            r == self@.contains(key@),
    {
        let ghost views = group_views(self.keys@);
        let mut i: usize = 0;
        while i < self.keys.len()
            invariant
                i <= self.keys@.len(),
                views == group_views(self.keys@),
                forall|j: int| 0 <= j < i ==> #[trigger] views[j] != key@,
            decreases self.keys@.len() - i,
        {
            if same_group(&self.keys[i], key) {
                assert(views[i as int] == key@);
                return true;
            }
            assert(views[i as int] == self.keys@[i as int]@);
            i += 1;
        }
        false
    }

    /// Adds a group.
    pub fn insert(&mut self, key: DashboardGroupKey)
        ensures
            final(self)@ == old(self)@.insert(key@),
    {
        let ghost before = group_views(self.keys@);
        let ghost view = key@;
        self.keys.push(key);
        proof {
            let after = group_views(self.keys@);
            assert(after =~= before.push(view));
            assert forall|k: GroupKeyView| after.to_set().contains(k) == before.to_set().insert(
                view,
            ).contains(k) by {
                if before.contains(k) {
                    let j = choose|j: int| 0 <= j < before.len() && before[j] == k;
                    assert(after[j] == k);
                }
                assert(after[before.len() as int] == view);
            }
            assert(after.to_set() =~= before.to_set().insert(view));
        }
    }

    /// Takes a group out, and says whether it was there.
    pub fn remove(&mut self, key: &DashboardGroupKey) -> (r: bool)
        ensures
            r == old(self)@.contains(key@),
            final(self)@ == old(self)@.remove(key@),
    {
        let r: bool = self.contains(key);
        let ghost before = group_views(self.keys@);
        let mut kept: Vec<DashboardGroupKey> = Vec::new();
        let mut i: usize = 0;
        while i < self.keys.len()
            invariant
                i <= self.keys@.len(),
                before == group_views(self.keys@),
                forall|j: int|
                    0 <= j < kept@.len() ==> (#[trigger] kept@[j])@ != key@ && before.contains(
                        kept@[j]@,
                    ),
                forall|j: int|
                    0 <= j < i && before[j] != key@ ==> group_views(kept@).contains(
                        #[trigger] before[j],
                    ),
            decreases self.keys@.len() - i,
        {
            assert(before[i as int] == self.keys@[i as int]@);
            if !same_group(&self.keys[i], key) {
                let ghost earlier = group_views(kept@);
                kept.push(self.keys[i].clone());
                proof {
                    let later = group_views(kept@);
                    assert(later =~= earlier.push(before[i as int]));
                    assert forall|j: int| 0 <= j < i + 1 && before[j] != key@ implies later.contains(
                        #[trigger] before[j],
                    ) by {
                        if j < i {
                            let k = choose|k: int|
                                0 <= k < earlier.len() && earlier[k] == before[j];
                            assert(later[k] == before[j]);
                        } else {
                            assert(later[earlier.len() as int] == before[j]);
                        }
                    }
                }
            }
            i += 1;
        }
        proof {
            let after = group_views(kept@);
            assert forall|k: GroupKeyView| after.to_set().contains(k) == before.to_set().remove(
                key@,
            ).contains(k) by {
                if after.contains(k) {
                    let j = choose|j: int| 0 <= j < after.len() && after[j] == k;
                    assert(kept@[j]@ == k);
                }
                if before.contains(k) && k != key@ {
                    let j = choose|j: int| 0 <= j < before.len() && before[j] == k;
                    assert(after.contains(before[j]));
                }
            }
            assert(after.to_set() =~= before.to_set().remove(key@));
        }
        self.keys = kept;
        r
    }
}

/// What the cursor stands on.
#[derive(Debug, Eq, PartialEq)]
pub enum DashboardSelection {
    Section(DashboardSection),
    Group(DashboardGroupKey),
    Session(String),
}

/// What the cursor stands on, as text.
#[verifier::ext_equal]
pub enum SelectionView {
    Section(DashboardSection),
    Group(GroupKeyView),
    Session(Seq<char>),
}

impl View for DashboardSelection {
    type V = SelectionView;

    open spec fn view(&self) -> SelectionView {
        match self {
            DashboardSelection::Section(section) => SelectionView::Section(*section),
            DashboardSelection::Group(key) => SelectionView::Group(key@),
            DashboardSelection::Session(id) => SelectionView::Session(id@),
        }
    }
}

/// What an optional cursor stands on, as text.
pub open spec fn selection_view(selection: Option<DashboardSelection>) -> Option<SelectionView> {
    match selection {
        Some(selection) => Some(selection@),
        None => None,
    }
}

/// What the keys mean at the moment.
#[derive(Clone, Copy, Debug, Eq, PartialEq, Structural)]
pub enum InputMode {
    Browse,
    Search,
    Hosts,
    Help,
    Preview,
}

/// What is known of the connection to a group's host.
#[derive(Clone, Copy, Debug, Eq, PartialEq, Structural)]
pub enum GroupConnectivity {
    Online,
    Checking,
    Offline(Option<u64>),
    Blocked,
    Cached,
}

/// A row of the dashboard.
#[derive(Debug, Eq, PartialEq)]
pub enum DashboardRow {
    Section { section: DashboardSection, count: usize, expanded: bool },
    Host {
        section: DashboardSection,
        host: String,
        count: usize,
        fresh: bool,
        expanded: bool,
    },
    Group {
        section: DashboardSection,
        cwd: String,
        host: String,
        count: usize,
        fresh: bool,
        expanded: bool,
    },
    Session(SessionRef),
}

/// What a key asks for.
#[derive(Debug, Eq, PartialEq)]
pub enum Action {
    Nothing,
    Quit,
    Attach(String),
    Acknowledge(String),
    Refresh,
    SetArchived { session_id: String, archived: bool, attach: bool },
    SetHostFilter(String),
}

/// What a key asks for, as text.
#[verifier::ext_equal]
pub enum ActionView {
    Nothing,
    Quit,
    Attach(Seq<char>),
    Acknowledge(Seq<char>),
    Refresh,
    SetArchived { session_id: Seq<char>, archived: bool, attach: bool },
    SetHostFilter(Seq<char>),
}

impl View for Action {
    type V = ActionView;

    open spec fn view(&self) -> ActionView {
        match self {
            Action::Nothing => ActionView::Nothing,
            Action::Quit => ActionView::Quit,
            Action::Attach(id) => ActionView::Attach(id@),
            Action::Acknowledge(id) => ActionView::Acknowledge(id@),
            Action::Refresh => ActionView::Refresh,
            Action::SetArchived { session_id, archived, attach } => ActionView::SetArchived {
                session_id: session_id@,
                archived: *archived,
                attach: *attach,
            },
            Action::SetHostFilter(host) => ActionView::SetHostFilter(host@),
        }
    }
}

/// What comes back from outside.
pub enum RefreshEvent {
    Basic { generation: u64, target: String, sessions: Vec<Session> },
    Detailed { generation: u64, target: String, sessions: Vec<Session> },
    Failed { generation: u64, target: String, error: String },
    DetailFailed { generation: u64, target: String },
    Activity {
        generation: u64,
        target: String,
        observations: Result<StringMap<LiveObservation>, String>,
    },
    Preview { request_id: u64, session_id: String, result: Result<String, String> },
}

/// What a preview shows.
#[derive(Debug, Eq, PartialEq)]
pub enum PreviewContent {
    Loading,
    Ready { source: &'static str, body: String },
    Failed { error: String, fallback: String },
}

/// What a preview shows, as text.
#[verifier::ext_equal]
pub enum ContentView {
    Loading,
    Ready { source: Seq<char>, body: Seq<char> },
    Failed { error: Seq<char>, fallback: Seq<char> },
}

impl View for PreviewContent {
    type V = ContentView;

    open spec fn view(&self) -> ContentView {
        match self {
            PreviewContent::Loading => ContentView::Loading,
            PreviewContent::Ready { source, body } => ContentView::Ready {
                source: source@,
                body: body@,
            },
            PreviewContent::Failed { error, fallback } => ContentView::Failed {
                error: error@,
                fallback: fallback@,
            },
        }
    }
}

/// The preview of a session.
#[derive(Debug, Eq, PartialEq)]
pub struct SessionPreview {
    pub request_id: u64,
    pub session_id: String,
    pub title: String,
    pub host: String,
    pub scroll_from_bottom: usize,
    pub notice: Option<String>,
    pub content: PreviewContent,
}

/// The preview of a session, as text.
#[verifier::ext_equal]
pub struct PreviewView {
    pub request_id: u64,
    pub session_id: Seq<char>,
    pub title: Seq<char>,
    pub host: Seq<char>,
    pub scroll_from_bottom: usize,
    pub notice: Option<Seq<char>>,
    pub content: ContentView,
}

/// Optional text.
pub open spec fn text_of(value: Option<String>) -> Option<Seq<char>> {
    match value {
        Some(value) => Some(value@),
        None => None,
    }
}

impl View for SessionPreview {
    type V = PreviewView;

    open spec fn view(&self) -> PreviewView {
        PreviewView {
            request_id: self.request_id,
            session_id: self.session_id@,
            title: self.title@,
            host: self.host@,
            scroll_from_bottom: self.scroll_from_bottom,
            notice: text_of(self.notice),
            content: self.content@,
        }
    }
}

/// An optional preview, as text.
pub open spec fn preview_view(preview: Option<SessionPreview>) -> Option<PreviewView> {
    match preview {
        Some(preview) => Some(preview@),
        None => None,
    }
}

/// What was known of a session when its host was asked: the times of its last interaction
/// and change, and whether a message is known.
#[derive(Clone, Copy, Debug, Eq, PartialEq, Structural)]
pub struct CachedDetail {
    pub last_interaction: u64,
    pub updated: u64,
    pub has_message: bool,
}

/// What is to be done outside.
pub enum Effect {
    /// Ask a host for its sessions, and then for the details that are not known yet.
    Discover {
        generation: u64,
        target: String,
        limit: usize,
        cached: StringMap<CachedDetail>,
    },
    /// Look at the live processes of a host.
    ObserveLive { generation: u64, target: String },
    /// Capture a pane for a preview.
    CapturePane {
        request_id: u64,
        session_id: String,
        host: String,
        tmux_session: String,
        pane: String,
        lines: usize,
    },
    /// Tell the user of a session that asks for attention.
    NotifyTransition(SessionTransition),
    /// Tell whoever watches of it.
    EmitTransition(SessionTransition),
    /// Tell the user of a host that can be reached again.
    NotifyRecovered { host: String, session_count: usize },
}

/// What is to be done outside, as text.
#[verifier::ext_equal]
pub enum EffectView {
    Discover {
        generation: u64,
        target: Seq<char>,
        limit: usize,
        cached: Map<Seq<char>, CachedDetail>,
    },
    ObserveLive { generation: u64, target: Seq<char> },
    CapturePane {
        request_id: u64,
        session_id: Seq<char>,
        host: Seq<char>,
        tmux_session: Seq<char>,
        pane: Seq<char>,
        lines: usize,
    },
    NotifyTransition(SessionTransition),
    EmitTransition(SessionTransition),
    NotifyRecovered { host: Seq<char>, session_count: usize },
}

impl View for Effect {
    type V = EffectView;

    open spec fn view(&self) -> EffectView {
        match self {
            Effect::Discover { generation, target, limit, cached } => EffectView::Discover {
                generation: *generation,
                target: target@,
                limit: *limit,
                cached: cached@,
            },
            Effect::ObserveLive { generation, target } => EffectView::ObserveLive {
                generation: *generation,
                target: target@,
            },
            Effect::CapturePane { request_id, session_id, host, tmux_session, pane, lines } =>
            EffectView::CapturePane {
                request_id: *request_id,
                session_id: session_id@,
                host: host@,
                tmux_session: tmux_session@,
                pane: pane@,
                lines: *lines,
            },
            Effect::NotifyTransition(transition) => EffectView::NotifyTransition(*transition),
            Effect::EmitTransition(transition) => EffectView::EmitTransition(*transition),
            Effect::NotifyRecovered { host, session_count } => EffectView::NotifyRecovered {
                host: host@,
                session_count: *session_count,
            },
        }
    }
}

/// What is to be done outside, as text.
pub open spec fn effect_views(effects: Seq<Effect>) -> Seq<EffectView> {
    effects.map_values(|effect: Effect| effect@)
}

/// Adding to what is to be done adds to its text.
pub proof fn lemma_effects_push(effects: Seq<Effect>, effect: Effect)
    ensures
        effect_views(effects.push(effect)) == effect_views(effects).push(effect@),
{
    assert(effect_views(effects.push(effect)) =~= effect_views(effects).push(effect@));
}

/// The state of the picker.
pub struct PickerApp {
    pub store: Store,
    pub active: Vec<Session>,
    pub settled: Vec<Session>,
    pub rows: Vec<DashboardRow>,
    pub query: String,
    pub selected_row: usize,
    pub input_mode: InputMode,
    pub expanded_sections: SectionSet,
    pub collapsed_groups: GroupSet,
    pub show_details: bool,
    pub host_filter: String,
    pub host_choices: Vec<String>,
    pub host_selected: usize,
    pub discovery_targets: Vec<String>,
    pub pending_hosts: StringSet,
    pub reachable_hosts: StringSet,
    pub enriching_hosts: StringSet,
    pub host_errors: StringMap<String>,
    pub fresh_ids: StringSet,
    pub unread_ids: StringSet,
    pub watching: bool,
    pub initial_targets_remaining: StringSet,
    pub refresh_generation: u64,
    pub reconnect: StringMap<HostReconnectState>,
    pub reconnect_jitter_seed: u64,
    pub activity_pending: StringSet,
    pub last_activity_poll: StringMap<u64>,
    pub limit: usize,
    pub status: Option<String>,
    pub notice: Option<(String, u64)>,
    pub preview_request_id: u64,
    pub preview: Option<SessionPreview>,
    pub effects: Vec<Effect>,
    pub local_hostname: String,
    pub home: Option<String>,
}

/// The state of the picker, as text, sets and maps.
#[verifier::ext_equal]
pub struct PickerView {
    pub store: Seq<StoredSession>,
    pub active: Seq<Session>,
    pub settled: Seq<Session>,
    pub rows: Seq<DashboardRow>,
    pub query: Seq<char>,
    pub selected_row: usize,
    pub input_mode: InputMode,
    pub expanded_sections: SectionSet,
    pub collapsed_groups: Set<GroupKeyView>,
    pub show_details: bool,
    pub host_filter: Seq<char>,
    pub host_choices: Seq<Seq<char>>,
    pub host_selected: usize,
    pub discovery_targets: Seq<Seq<char>>,
    pub pending_hosts: Set<Seq<char>>,
    pub reachable_hosts: Set<Seq<char>>,
    pub enriching_hosts: Set<Seq<char>>,
    pub host_errors: Map<Seq<char>, String>,
    pub fresh_ids: Set<Seq<char>>,
    pub unread_ids: Set<Seq<char>>,
    pub watching: bool,
    pub initial_targets_remaining: Set<Seq<char>>,
    pub refresh_generation: u64,
    pub reconnect: Map<Seq<char>, HostReconnectState>,
    pub reconnect_jitter_seed: u64,
    pub activity_pending: Set<Seq<char>>,
    pub last_activity_poll: Map<Seq<char>, u64>,
    pub limit: usize,
    pub status: Option<Seq<char>>,
    pub notice: Option<(Seq<char>, u64)>,
    pub preview_request_id: u64,
    pub preview: Option<PreviewView>,
    pub effects: Seq<EffectView>,
    pub local_hostname: Seq<char>,
    pub home: Option<Seq<char>>,
}

/// A notice and when it was shown, as text.
pub open spec fn notice_view(notice: Option<(String, u64)>) -> Option<(Seq<char>, u64)> {
    match notice {
        Some((text, at)) => Some((text@, at)),
        None => None,
    }
}

impl View for PickerApp {
    type V = PickerView;

    open spec fn view(&self) -> PickerView {
        PickerView {
            store: self.store@,
            active: self.active@,
            settled: self.settled@,
            rows: self.rows@,
            query: self.query@,
            selected_row: self.selected_row,
            input_mode: self.input_mode,
            expanded_sections: self.expanded_sections,
            collapsed_groups: self.collapsed_groups@,
            show_details: self.show_details,
            host_filter: self.host_filter@,
            host_choices: texts(self.host_choices@),
            host_selected: self.host_selected,
            discovery_targets: texts(self.discovery_targets@),
            pending_hosts: self.pending_hosts@,
            reachable_hosts: self.reachable_hosts@,
            enriching_hosts: self.enriching_hosts@,
            host_errors: self.host_errors@,
            fresh_ids: self.fresh_ids@,
            unread_ids: self.unread_ids@,
            watching: self.watching,
            initial_targets_remaining: self.initial_targets_remaining@,
            refresh_generation: self.refresh_generation,
            reconnect: self.reconnect@,
            reconnect_jitter_seed: self.reconnect_jitter_seed,
            activity_pending: self.activity_pending@,
            last_activity_poll: self.last_activity_poll@,
            limit: self.limit,
            status: text_of(self.status),
            notice: notice_view(self.notice),
            preview_request_id: self.preview_request_id,
            preview: preview_view(self.preview),
            effects: effect_views(self.effects@),
            local_hostname: self.local_hostname@,
            home: text_of(self.home),
        }
    }
}

impl PickerView {
    /// A reference names a session of the inventory.
    pub open spec fn has_ref(self, session_ref: SessionRef) -> bool {
        match session_ref {
            SessionRef::Active(i) => i < self.active.len(),
            SessionRef::Settled(i) => i < self.settled.len(),
        }
    }

    /// Every row of a session names one of the inventory.
    pub open spec fn wf(self) -> bool {
        forall|i: int|
            0 <= i < self.rows.len() && (#[trigger] self.rows[i]) is Session ==> self.has_ref(
                self.rows[i]->Session_0,
            )
    }

    /// The session of a reference.
    pub open spec fn session_of(self, session_ref: SessionRef) -> Session {
        match session_ref {
            SessionRef::Active(i) => self.active[i as int],
            SessionRef::Settled(i) => self.settled[i as int],
        }
    }

    /// The row under the cursor.
    pub open spec fn current_row(self) -> Option<DashboardRow> {
        if self.selected_row < self.rows.len() {
            Some(self.rows[self.selected_row as int])
        } else {
            None
        }
    }
}

/// The first session with an identifier.
pub open spec fn first_with_id(sessions: Seq<Session>, id: Seq<char>) -> Option<Session>
    decreases sessions.len(),
{
    if sessions.len() == 0 {
        None
    } else if sessions[0].id@ == id {
        Some(sessions[0])
    } else {
        first_with_id(sessions.drop_first(), id)
    }
}

/// The first session with an identifier, as a reference into the list.
pub fn find_by_id<'a>(sessions: &'a Vec<Session>, id: &str) -> (r: Option<&'a Session>)
    ensures
        r is Some <==> first_with_id(sessions@, id@) is Some,
        r matches Some(session) ==> first_with_id(sessions@, id@) == Some(*session),
{
    let mut i: usize = 0;
    assert(sessions@.skip(0) =~= sessions@);
    while i < sessions.len()
        invariant
            i <= sessions@.len(),
            first_with_id(sessions@.skip(i as int), id@) == first_with_id(sessions@, id@),
        decreases sessions@.len() - i,
    {
        proof {
            assert(sessions@.skip(i as int)[0] == sessions@[i as int]);
            assert(sessions@.skip(i as int).drop_first() =~= sessions@.skip(i + 1));
        }
        if same(sessions[i].id.as_str(), id) {
            return Some(&sessions[i]);
        }
        i += 1;
    }
    assert(sessions@.skip(i as int).len() == 0);
    None
}

} // verus!
