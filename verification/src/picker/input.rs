//! What the keys do.

use vstd::prelude::*;

use crate::domain::{RuntimeOwner, Session};
use crate::reconnect::{requested, HostReconnectState};
use crate::text::{chars_of, same, string_of, texts};

use super::dashboard::{
    first_of, last_before, last_of, place_in, place_of, row_group, row_group_key,
};
use super::view::text::{
    cached_preview, cached_preview_source, cached_source, cached_text,
};
use super::{
    find_by_id, first_with_id, lemma_effects_push, text_of, Action, ActionView, Clock, ContentView,
    DashboardGroupKey, DashboardRow, DashboardSection, DashboardSelection, Effect, EffectView,
    GroupKeyView, InputMode, PickerApp, PickerView, PreviewContent, PreviewView, SelectionView,
    SessionPreview, ALL_HOSTS, PREVIEW_CAPTURE_LINES,
};

verus! {

/// A key of the keyboard.
#[derive(Clone, Copy, Debug, Eq, PartialEq, Structural)]
pub enum KeyCode {
    Char(char),
    Esc,
    Enter,
    Backspace,
    Tab,
    Up,
    Down,
    Home,
    End,
    PageUp,
    PageDown,
    Other,
}

/// A key with what was held down with it.
#[derive(Clone, Copy, Debug, Eq, PartialEq, Structural)]
pub struct Key {
    pub code: KeyCode,
    pub control: bool,
    pub alt: bool,
}

impl Key {
    /// A key with nothing held down.
    pub fn plain(code: KeyCode) -> (r: Self)
        ensures
            r == (Key { code, control: false, alt: false }),
    {
        Key { code, control: false, alt: false }
    }
}

/// What is said where a session has left the inventory.
pub open spec fn gone_text() -> Seq<char> {
    "That session is no longer in the cached inventory."@
}

/// What is said where another frontend owns a session.
pub open spec fn owned_text() -> Seq<char> {
    "Owned by an external frontend; close or release it before resuming here."@
}

/// The row heads a group.
pub open spec fn heads_group() -> spec_fn(DashboardRow) -> bool {
    |row: DashboardRow| row_group(row) is Some
}

impl PickerView {
    /// Whether a session is settled, where the inventory holds it.
    pub open spec fn archived_state(self, id: Seq<char>) -> Option<bool> {
        if first_with_id(self.active, id) is Some {
            Some(false)
        } else if first_with_id(self.settled, id) is Some {
            Some(true)
        } else {
            None
        }
    }

    /// The session with an identifier, the active ones first.
    pub open spec fn session_with_id(self, id: Seq<char>) -> Option<Session> {
        match first_with_id(self.active, id) {
            Some(session) => Some(session),
            None => first_with_id(self.settled, id),
        }
    }

    /// The state without a preview.
    pub open spec fn without_preview(self) -> PickerView {
        PickerView { preview: None, input_mode: InputMode::Browse, ..self }
    }

    /// The state in another mode.
    pub open spec fn in_mode(self, input_mode: InputMode) -> PickerView {
        PickerView { input_mode, status: None, ..self }
    }

    /// The state with a message, in the preview where there is one.
    pub open spec fn with_message(self, message: Seq<char>) -> PickerView {
        match self.preview {
            Some(preview) => PickerView {
                preview: Some(PreviewView { notice: Some(message), ..preview }),
                ..self
            },
            None => PickerView { status: Some(message), ..self },
        }
    }

    /// What opening a session does: nothing where it has gone or where a live frontend
    /// elsewhere owns it.
    pub open spec fn opened(self, id: Seq<char>) -> (PickerView, ActionView) {
        match self.session_with_id(id) {
            None => (
                PickerView { status: Some(gone_text()), ..self.without_preview() },
                ActionView::Nothing,
            ),
            Some(session) => if session.runtime is ExternalFrontend && self.fresh_ids.contains(
                session.id@,
            ) {
                (self.with_message(owned_text()), ActionView::Nothing)
            } else if first_with_id(self.active, id) is Some {
                (self, ActionView::Attach(session.id@))
            } else {
                (
                    self,
                    ActionView::SetArchived {
                        session_id: session.id@,
                        archived: false,
                        attach: true,
                    },
                )
            },
        }
    }

    /// What settling or restoring the session under the cursor asks for.
    pub open spec fn archive_request(self, attach: bool) -> ActionView {
        match self.chosen_session() {
            None => ActionView::Nothing,
            Some(session) => match self.archived_state(session.id@) {
                None => ActionView::Nothing,
                Some(archived) => ActionView::SetArchived {
                    session_id: session.id@,
                    archived: !archived,
                    attach,
                },
            },
        }
    }

    /// The state with a group collapsed that was expanded, or the other way round.
    pub open spec fn with_group_toggled(self, key: GroupKeyView) -> PickerView {
        PickerView {
            collapsed_groups: if self.collapsed_groups.contains(key) {
                self.collapsed_groups.remove(key)
            } else {
                self.collapsed_groups.insert(key)
            },
            status: None,
            ..self
        }
    }

    /// The state with a part collapsed that was expanded, or the other way round.
    pub open spec fn with_section_toggled(self, section: DashboardSection) -> PickerView {
        PickerView {
            expanded_sections: self.expanded_sections.with(
                section,
                !self.expanded_sections.has(section),
            ),
            status: None,
            ..self
        }
    }

    /// The group that a toggle changes: the one under the cursor, or the one of the session
    /// under it.
    pub open spec fn toggled_group(self) -> Option<GroupKeyView> {
        match self.current_row() {
            None => None,
            Some(DashboardRow::Section { .. }) => None,
            Some(_) => match last_before(
                self.rows,
                heads_group(),
                (self.selected_row + 1) as nat,
            ) {
                Some(i) => row_group(self.rows[i as int]),
                None => None,
            },
        }
    }

    /// The state after what is under the cursor was toggled.
    pub open spec fn toggled(self, now: u64) -> PickerView {
        match self.current_row() {
            Some(DashboardRow::Section { section, .. }) => self.with_section_toggled(
                section,
            ).rebuilt(Some(SelectionView::Section(section)), now),
            _ => match self.toggled_group() {
                Some(key) => self.with_group_toggled(key).rebuilt(
                    Some(SelectionView::Group(key)),
                    now,
                ),
                None => self,
            },
        }
    }

    /// The state after a preview was opened: from the pane where one is live, and else from
    /// what is cached.
    pub open spec fn previewed(self) -> PickerView {
        match self.chosen_session() {
            None => self,
            Some(session) => {
                let request_id = self.preview_request_id.wrapping_add(1);
                let live = self.fresh_ids.contains(session.id@) && session.runtime is TmuxFrontend
                    && session.tmux is Some;
                PickerView {
                    preview_request_id: request_id,
                    status: None,
                    input_mode: InputMode::Preview,
                    preview: Some(
                        PreviewView {
                            request_id,
                            session_id: session.id@,
                            title: session.title@,
                            host: session.host@,
                            scroll_from_bottom: 0,
                            notice: None,
                            content: if live {
                                ContentView::Loading
                            } else {
                                ContentView::Ready {
                                    source: cached_source(session.runtime),
                                    body: cached_text(session, self.home),
                                }
                            },
                        },
                    ),
                    effects: if live {
                        self.effects.push(
                            EffectView::CapturePane {
                                request_id,
                                session_id: session.id@,
                                host: session.host@,
                                tmux_session: session.tmux->0.session@,
                                pane: session.tmux->0.pane@,
                                lines: PREVIEW_CAPTURE_LINES,
                            },
                        )
                    } else {
                        self.effects
                    },
                    ..self
                }
            },
        }
    }

    /// What moving the filter to the next or the last host asks for.
    pub open spec fn cycled(self, forward: bool) -> ActionView {
        let last = self.host_choices.len() - 1;
        let current = place_of(self.host_choices, self.host_filter) as int;
        let moved = if forward {
            current + 1
        } else if current > 0 {
            current - 1
        } else {
            0
        };
        if self.host_choices.len() == 0 {
            ActionView::Nothing
        } else {
            ActionView::SetHostFilter(
                self.host_choices[if moved < last {
                    moved
                } else {
                    last
                }],
            )
        }
    }

    /// The state after a host is to be asked at once, unless it is being asked.
    pub open spec fn with_host_requested(self, target: Seq<char>, now: u64) -> PickerView {
        if self.pending_hosts.contains(target) || self.enriching_hosts.contains(target)
            || !self.reconnect.dom().contains(target) {
            self
        } else {
            PickerView { reconnect: self.reconnect.insert(target, requested(now)), ..self }
        }
    }

    /// The state after the filter was set: the host comes first with the next refresh.
    pub open spec fn filtered(self, host: Seq<char>, clock: Clock) -> PickerView {
        let set = PickerView {
            host_filter: host,
            host_selected: place_of(self.host_choices, host),
            input_mode: InputMode::Browse,
            status: None,
            ..self
        };
        let asked = match set.target_of(host) {
            Some(target) => if host == ALL_HOSTS@ {
                set
            } else {
                set.with_host_requested(target, clock.monotonic_millis)
            },
            None => set,
        };
        asked.rebuilt(asked.selection(), clock.unix_seconds)
    }

    /// The state after the query was changed.
    pub open spec fn with_query(self, query: Seq<char>, now: u64) -> PickerView {
        PickerView { query, ..self }.rebuilt(None, now)
    }

    /// The state after a preview was scrolled.
    pub open spec fn scrolled(self, scroll: spec_fn(usize) -> usize) -> PickerView {
        match self.preview {
            Some(preview) => PickerView {
                preview: Some(
                    PreviewView {
                        scroll_from_bottom: scroll(preview.scroll_from_bottom),
                        ..preview
                    },
                ),
                ..self
            },
            None => self,
        }
    }

    /// What a key does while browsing.
    pub open spec fn browse_key(self, key: Key, now: u64) -> (PickerView, ActionView) {
        let quiet = PickerView { status: None, ..self };
        match key.code {
            KeyCode::Esc => (self, ActionView::Quit),
            KeyCode::Tab => (self.toggled(now), ActionView::Nothing),
            KeyCode::Down => (
                PickerView { selected_row: self.next_row(), ..quiet },
                ActionView::Nothing,
            ),
            KeyCode::Up => (
                PickerView { selected_row: self.previous_row(), ..quiet },
                ActionView::Nothing,
            ),
            KeyCode::Home => (
                PickerView { selected_row: first_of(self.rows), ..quiet },
                ActionView::Nothing,
            ),
            KeyCode::End => (
                PickerView { selected_row: last_of(self.rows), ..quiet },
                ActionView::Nothing,
            ),
            KeyCode::Enter => match self.current_row() {
                Some(DashboardRow::Session(session_ref)) => self.opened(
                    self.session_of(session_ref).id@,
                ),
                _ => (self.toggled(now), ActionView::Nothing),
            },
            KeyCode::Char(c) => if c == 'q' || (c == 'c' && key.control) {
                (self, ActionView::Quit)
            } else if c == '/' {
                (self.in_mode(InputMode::Search), ActionView::Nothing)
            } else if c == 'h' {
                (self.in_mode(InputMode::Hosts), ActionView::Nothing)
            } else if c == '?' {
                (self.in_mode(InputMode::Help), ActionView::Nothing)
            } else if c == 'i' {
                (
                    PickerView { show_details: !self.show_details, ..quiet },
                    ActionView::Nothing,
                )
            } else if c == 'p' {
                (self.previewed(), ActionView::Nothing)
            } else if c == ' ' {
                (self.toggled(now), ActionView::Nothing)
            } else if c == 'r' {
                (self, ActionView::Refresh)
            } else if c == 'a' {
                (self, self.archive_request(false))
            } else if c == 'x' {
                (
                    self,
                    match self.chosen_session() {
                        Some(session) => ActionView::Acknowledge(session.id@),
                        None => ActionView::Nothing,
                    },
                )
            } else if c == '0' {
                (self, ActionView::SetHostFilter(ALL_HOSTS@))
            } else if c == '[' {
                (self, self.cycled(false))
            } else if c == ']' {
                (self, self.cycled(true))
            } else if c == 'j' {
                (PickerView { selected_row: self.next_row(), ..quiet }, ActionView::Nothing)
            } else if c == 'k' {
                (
                    PickerView { selected_row: self.previous_row(), ..quiet },
                    ActionView::Nothing,
                )
            } else if c == 'g' {
                (
                    PickerView { selected_row: first_of(self.rows), ..quiet },
                    ActionView::Nothing,
                )
            } else if c == 'G' {
                (PickerView { selected_row: last_of(self.rows), ..quiet }, ActionView::Nothing)
            } else {
                (self, ActionView::Nothing)
            },
            _ => (self, ActionView::Nothing),
        }
    }

    /// What a key does to the query.
    pub open spec fn search_key(self, key: Key, now: u64) -> PickerView {
        match key.code {
            KeyCode::Esc | KeyCode::Enter => PickerView { input_mode: InputMode::Browse, ..self },
            KeyCode::Backspace => self.with_query(
                if self.query.len() > 0 {
                    self.query.drop_last()
                } else {
                    self.query
                },
                now,
            ),
            KeyCode::Char(c) => if c == 'u' && key.control {
                self.with_query(Seq::empty(), now)
            } else if !key.control && !key.alt {
                self.with_query(self.query.push(c), now)
            } else {
                self
            },
            _ => self,
        }
    }

    /// What a key does in the list of hosts.
    pub open spec fn host_key(self, key: Key) -> (PickerView, ActionView) {
        let last = self.host_choices.len() - 1;
        let down = PickerView {
            host_selected: if last < 0 {
                self.host_selected
            } else if self.host_selected < last {
                (self.host_selected + 1) as usize
            } else {
                last as usize
            },
            ..self
        };
        let up = PickerView {
            host_selected: if self.host_selected > 0 {
                (self.host_selected - 1) as usize
            } else {
                0
            },
            ..self
        };
        match key.code {
            KeyCode::Esc => (
                PickerView { input_mode: InputMode::Browse, ..self },
                ActionView::Nothing,
            ),
            KeyCode::Down => (down, ActionView::Nothing),
            KeyCode::Up => (up, ActionView::Nothing),
            KeyCode::Enter => (
                self,
                if self.host_selected < self.host_choices.len() {
                    ActionView::SetHostFilter(self.host_choices[self.host_selected as int])
                } else {
                    ActionView::Nothing
                },
            ),
            KeyCode::Char(c) => if c == 'q' {
                (PickerView { input_mode: InputMode::Browse, ..self }, ActionView::Nothing)
            } else if c == 'j' {
                (down, ActionView::Nothing)
            } else if c == 'k' {
                (up, ActionView::Nothing)
            } else {
                (self, ActionView::Nothing)
            },
            _ => (self, ActionView::Nothing),
        }
    }

    /// What a key does in the help.
    pub open spec fn help_key(self, key: Key) -> PickerView {
        match key.code {
            KeyCode::Esc | KeyCode::Enter => PickerView { input_mode: InputMode::Browse, ..self },
            KeyCode::Char(c) => if c == 'q' || c == '?' {
                PickerView { input_mode: InputMode::Browse, ..self }
            } else {
                self
            },
            _ => self,
        }
    }

    /// What a key does in a preview.
    pub open spec fn preview_key(self, key: Key) -> (PickerView, ActionView) {
        match key.code {
            KeyCode::Esc => (self.without_preview(), ActionView::Nothing),
            KeyCode::Down => (self.scrolled(|n: usize| less(n, 1)), ActionView::Nothing),
            KeyCode::PageDown => (self.scrolled(|n: usize| less(n, 10)), ActionView::Nothing),
            KeyCode::Up => (self.scrolled(|n: usize| more(n, 1)), ActionView::Nothing),
            KeyCode::PageUp => (self.scrolled(|n: usize| more(n, 10)), ActionView::Nothing),
            KeyCode::Home => (self.scrolled(|n: usize| usize::MAX), ActionView::Nothing),
            KeyCode::End => (self.scrolled(|n: usize| 0), ActionView::Nothing),
            KeyCode::Enter => match self.preview {
                None => (self, ActionView::Nothing),
                Some(preview) => self.opened(preview.session_id),
            },
            KeyCode::Char(c) => if c == 'q' || c == 'p' {
                (self.without_preview(), ActionView::Nothing)
            } else if c == 'j' {
                (self.scrolled(|n: usize| less(n, 1)), ActionView::Nothing)
            } else if c == 'k' {
                (self.scrolled(|n: usize| more(n, 1)), ActionView::Nothing)
            } else if c == 'g' {
                (self.scrolled(|n: usize| usize::MAX), ActionView::Nothing)
            } else if c == 'G' {
                (self.scrolled(|n: usize| 0), ActionView::Nothing)
            } else if c == 'a' {
                match self.preview {
                    None => (self, ActionView::Nothing),
                    Some(preview) => match self.archived_state(preview.session_id) {
                        None => (
                            PickerView { status: Some(gone_text()), ..self.without_preview() },
                            ActionView::Nothing,
                        ),
                        Some(archived) => (
                            self.without_preview(),
                            ActionView::SetArchived {
                                session_id: preview.session_id,
                                archived: !archived,
                                attach: false,
                            },
                        ),
                    },
                }
            } else if c == 'x' {
                (
                    self,
                    match self.preview {
                        Some(preview) => ActionView::Acknowledge(preview.session_id),
                        None => ActionView::Nothing,
                    },
                )
            } else {
                (self, ActionView::Nothing)
            },
            _ => (self, ActionView::Nothing),
        }
    }

    /// What a key does.
    pub open spec fn key_pressed(self, key: Key, now: u64) -> (PickerView, ActionView) {
        match self.input_mode {
            InputMode::Browse => self.browse_key(key, now),
            InputMode::Search => (self.search_key(key, now), ActionView::Nothing),
            InputMode::Hosts => self.host_key(key),
            InputMode::Help => (self.help_key(key), ActionView::Nothing),
            InputMode::Preview => self.preview_key(key),
        }
    }
}

/// So much less, down to nothing.
pub open spec fn less(n: usize, step: usize) -> usize {
    if n > step {
        (n - step) as usize
    } else {
        0
    }
}

/// So much more, as far as can be counted.
pub open spec fn more(n: usize, step: usize) -> usize {
    if n + step <= usize::MAX {
        (n + step) as usize
    } else {
        usize::MAX
    }
}

impl PickerApp {
    /// Whether a session is settled, where the inventory holds it.
    pub fn archived_state_for_session(&self, session_id: &str) -> (r: Option<bool>)
        ensures
            r == self@.archived_state(session_id@),
    {
        if find_by_id(&self.active, session_id).is_some() {
            Some(false)
        } else if find_by_id(&self.settled, session_id).is_some() {
            Some(true)
        } else {
            None
        }
    }

    fn close_preview(&mut self)
        ensures
            final(self)@ == old(self)@.without_preview(),
    {
        self.preview = None;
        self.input_mode = InputMode::Browse;
    }

    fn show_message(&mut self, message: String)
        ensures
            final(self)@ == old(self)@.with_message(message@),
    {
        match &mut self.preview {
            Some(preview) => {
                preview.notice = Some(message);
            },
            None => {
                self.status = Some(message);
            },
        }
    }

    /// What opening a session asks for. A session that a live frontend elsewhere owns is left
    /// alone.
    pub fn action_for_session(&mut self, session_id: &str) -> (r: Action)
        ensures
            (final(self)@, r@) == old(self)@.opened(session_id@),
    {
        let (found, settled): (Option<&Session>, bool) = match find_by_id(
            &self.active,
            session_id,
        ) {
            Some(session) => (Some(session), false),
            None => (find_by_id(&self.settled, session_id), true),
        };
        let (id, owned): (String, bool) = match found {
            Some(session) => (
                session.id.clone(),
                session.runtime == RuntimeOwner::ExternalFrontend && self.fresh_ids.contains(
                    session.id.as_str(),
                ),
            ),
            None => {
                self.close_preview();
                self.status = Some("That session is no longer in the cached inventory.".to_owned());
                return Action::Nothing;
            },
        };
        if owned {
            self.show_message(
                "Owned by an external frontend; close or release it before resuming here.".to_owned(),
            );
            return Action::Nothing;
        }
        if settled {
            Action::SetArchived { session_id: id, archived: false, attach: true }
        } else {
            Action::Attach(id)
        }
    }

    fn archive_action(&self, attach: bool) -> (r: Action)
        requires
            self@.wf(),
        ensures
            r@ == self@.archive_request(attach),
    {
        match self.selected_session() {
            None => Action::Nothing,
            Some(session) => match self.archived_state_for_session(session.id.as_str()) {
                None => Action::Nothing,
                Some(archived) => Action::SetArchived {
                    session_id: session.id.clone(),
                    archived: !archived,
                    attach,
                },
            },
        }
    }

    fn acknowledge_action(&self) -> (r: Action)
        requires
            self@.wf(),
        ensures
            r@ == match self@.chosen_session() {
                Some(session) => ActionView::Acknowledge(session.id@),
                None => ActionView::Nothing,
            },
    {
        match self.selected_session() {
            Some(session) => Action::Acknowledge(session.id.clone()),
            None => Action::Nothing,
        }
    }

    fn group_to_toggle(&self) -> (r: Option<DashboardGroupKey>)
        requires
            self.selected_row < self.rows@.len(),
        ensures
            r is Some <==> last_before(
                self@.rows,
                heads_group(),
                (self.selected_row + 1) as nat,
            ) is Some,
            r matches Some(key) ==> Some(key@) == row_group(
                self@.rows[last_before(
                    self@.rows,
                    heads_group(),
                    (self.selected_row + 1) as nat,
                )->0 as int],
            ),
    {
        let total: usize = self.rows.len();
        assert(self.selected_row < total);
        let mut n: usize = self.selected_row + 1;
        while n > 0
            invariant
                n <= self.selected_row + 1 <= self.rows@.len(),
                last_before(self.rows@, heads_group(), n as nat) == last_before(
                    self.rows@,
                    heads_group(),
                    (self.selected_row + 1) as nat,
                ),
            decreases n,
        {
            if let Some(key) = row_group_key(&self.rows[n - 1]) {
                return Some(key);
            }
            n -= 1;
        }
        None
    }

    /// Toggles the part or the group under the cursor, or the group of the session under it.
    pub fn toggle_selected_row(&mut self, now: u64)
        requires
            old(self)@.wf(),
        ensures
            final(self)@ == old(self)@.toggled(now),
            final(self)@.wf(),
    {
        if self.selected_row >= self.rows.len() {
            return;
        }
        match self.selected_section() {
            Some(section) => {
                if !self.expanded_sections.remove(section) {
                    self.expanded_sections.insert(section);
                }
                self.status = None;
                self.rebuild_rows_selecting(Some(DashboardSelection::Section(section)), now);
            },
            None => {
                if let Some(key) = self.group_to_toggle() {
                    if !self.collapsed_groups.remove(&key) {
                        self.collapsed_groups.insert(key.clone());
                    }
                    self.status = None;
                    assert(self@ =~= old(self)@.with_group_toggled(key@));
                    self.rebuild_rows_selecting(Some(DashboardSelection::Group(key)), now);
                }
            },
        }
    }

    fn selected_action(&mut self, now: u64) -> (r: Action)
        requires
            old(self)@.wf(),
        ensures
            final(self)@.wf(),
            (final(self)@, r@) == (match old(self)@.current_row() {
                Some(DashboardRow::Session(session_ref)) => old(self)@.opened(
                    old(self)@.session_of(session_ref).id@,
                ),
                _ => (old(self)@.toggled(now), ActionView::Nothing),
            }),
    {
        let id: Option<String> = match self.selected_session() {
            Some(session) => Some(session.id.clone()),
            None => None,
        };
        match id {
            Some(id) => self.action_for_session(id.as_str()),
            None => {
                self.toggle_selected_row(now);
                Action::Nothing
            },
        }
    }

    /// Opens a preview of the session under the cursor.
    pub fn start_preview(&mut self)
        requires
            old(self)@.wf(),
        ensures
            final(self)@ == old(self)@.previewed(),
            final(self)@.wf(),
    {
        let session: Session = match self.selected_session() {
            Some(session) => session.clone(),
            None => {
                return;
            },
        };
        self.preview_request_id = self.preview_request_id.wrapping_add(1);
        let request_id: u64 = self.preview_request_id;
        self.status = None;
        self.input_mode = InputMode::Preview;
        let live: bool = self.fresh_ids.contains(session.id.as_str()) && session.runtime
            == RuntimeOwner::TmuxFrontend && session.tmux.is_some();
        let content: PreviewContent = if live {
            PreviewContent::Loading
        } else {
            PreviewContent::Ready {
                source: cached_preview_source(&session),
                body: cached_preview(&session, &self.home),
            }
        };
        self.preview = Some(
            SessionPreview {
                request_id,
                session_id: session.id.clone(),
                title: session.title.clone(),
                host: session.host.clone(),
                scroll_from_bottom: 0,
                notice: None,
                content,
            },
        );
        if live {
            if let Some(binding) = session.tmux {
                let effect = Effect::CapturePane {
                    request_id,
                    session_id: session.id,
                    host: session.host,
                    tmux_session: binding.session,
                    pane: binding.pane,
                    lines: PREVIEW_CAPTURE_LINES,
                };
                proof {
                    lemma_effects_push(self.effects@, effect);
                }
                self.effects.push(effect);
            }
        }
    }

    fn cycle_host_filter(&self, forward: bool) -> (r: Action)
        ensures
            r@ == self@.cycled(forward),
    {
        if self.host_choices.len() == 0 {
            return Action::Nothing;
        }
        let current: usize = place_in(&self.host_choices, self.host_filter.as_str());
        let last: usize = self.host_choices.len() - 1;
        let next: usize = if forward {
            if current < last {
                current + 1
            } else {
                last
            }
        } else if current > 0 {
            current - 1
        } else {
            0
        };
        proof {
            assert(texts(self.host_choices@)[next as int] == self.host_choices@[next as int]@);
        }
        Action::SetHostFilter(self.host_choices[next].clone())
    }

    /// Asks for a host at once, unless it is being asked.
    pub fn request_host_now(&mut self, target: &str, now: u64)
        ensures
            final(self)@ == old(self)@.with_host_requested(target@, now),
            old(self)@.wf() ==> final(self)@.wf(),
    {
        if self.pending_hosts.contains(target) || self.enriching_hosts.contains(target) {
            return;
        }
        if self.reconnect.contains_key(target) {
            self.reconnect.insert(target.to_owned(), HostReconnectState::new(now));
        }
    }

    /// Shows one host, or all of them.
    pub fn set_host_filter(&mut self, host: String, clock: Clock)
        requires
            old(self)@.wf(),
        ensures
            final(self)@ == old(self)@.filtered(host@, clock),
            final(self)@.wf(),
    {
        self.host_selected = place_in(&self.host_choices, host.as_str());
        self.host_filter = host;
        self.input_mode = InputMode::Browse;
        self.status = None;
        let target: Option<String> = match self.target_for_observed_host(
            self.host_filter.as_str(),
        ) {
            Some(target) => Some(target.clone()),
            None => None,
        };
        if let Some(target) = target {
            if !same(self.host_filter.as_str(), ALL_HOSTS) {
                self.request_host_now(target.as_str(), clock.monotonic_millis);
            }
        }
        self.rebuild_rows(clock.unix_seconds);
    }

    fn set_mode(&mut self, input_mode: InputMode)
        ensures
            final(self)@ == old(self)@.in_mode(input_mode),
    {
        self.input_mode = input_mode;
        self.status = None;
    }

    fn handle_browse_char(&mut self, c: char, control: bool, now: u64) -> (r: Action)
        requires
            old(self)@.wf(),
        ensures
            final(self)@.wf(),
            forall|alt: bool|
                (final(self)@, r@) == #[trigger] old(self)@.browse_key(
                    Key { code: KeyCode::Char(c), control, alt },
                    now,
                ),
    {
        if c == 'q' || (c == 'c' && control) {
            return Action::Quit;
        }
        if c == '/' {
            self.set_mode(InputMode::Search);
        } else if c == 'h' {
            self.set_mode(InputMode::Hosts);
        } else if c == '?' {
            self.set_mode(InputMode::Help);
        } else if c == 'i' {
            self.show_details = !self.show_details;
            self.status = None;
        } else if c == 'p' {
            self.start_preview();
        } else if c == ' ' {
            self.toggle_selected_row(now);
        } else if c == 'r' {
            return Action::Refresh;
        } else if c == 'a' {
            return self.archive_action(false);
        } else if c == 'x' {
            return self.acknowledge_action();
        } else if c == '0' {
            return Action::SetHostFilter(ALL_HOSTS.to_owned());
        } else if c == '[' {
            return self.cycle_host_filter(false);
        } else if c == ']' {
            return self.cycle_host_filter(true);
        } else if c == 'j' {
            self.status = None;
            self.select_next();
        } else if c == 'k' {
            self.status = None;
            self.select_previous();
        } else if c == 'g' {
            self.status = None;
            self.select_first();
        } else if c == 'G' {
            self.status = None;
            self.select_last();
        }
        Action::Nothing
    }

    fn handle_browse_key(&mut self, key: Key, now: u64) -> (r: Action)
        requires
            old(self)@.wf(),
        ensures
            final(self)@.wf(),
            (final(self)@, r@) == old(self)@.browse_key(key, now),
    {
        match key.code {
            KeyCode::Esc => {
                return Action::Quit;
            },
            KeyCode::Tab => {
                self.toggle_selected_row(now);
            },
            KeyCode::Down => {
                self.status = None;
                self.select_next();
            },
            KeyCode::Up => {
                self.status = None;
                self.select_previous();
            },
            KeyCode::Home => {
                self.status = None;
                self.select_first();
            },
            KeyCode::End => {
                self.status = None;
                self.select_last();
            },
            KeyCode::Enter => {
                return self.selected_action(now);
            },
            KeyCode::Char(c) => {
                let r: Action = self.handle_browse_char(c, key.control, now);
                assert(key == Key { code: KeyCode::Char(c), control: key.control, alt: key.alt });
                return r;
            },
            _ => {},
        }
        Action::Nothing
    }

    fn set_query(&mut self, query: String, now: u64)
        ensures
            final(self)@ == old(self)@.with_query(query@, now),
            final(self)@.wf(),
    {
        self.query = query;
        self.rebuild_rows_selecting(None, now);
    }

    fn handle_search_key(&mut self, key: Key, now: u64)
        requires
            old(self)@.wf(),
        ensures
            final(self)@.wf(),
            final(self)@ == old(self)@.search_key(key, now),
    {
        match key.code {
            KeyCode::Esc | KeyCode::Enter => {
                self.input_mode = InputMode::Browse;
            },
            KeyCode::Backspace => {
                let chars: Vec<char> = chars_of(self.query.as_str());
                let query: String = if chars.len() > 0 {
                    let query: String = string_of(&chars, 0, chars.len() - 1);
                    assert(query@ =~= self@.query.drop_last());
                    query
                } else {
                    self.query.clone()
                };
                self.set_query(query, now);
            },
            KeyCode::Char(c) => {
                if c == 'u' && key.control {
                    self.set_query(String::new(), now);
                } else if !key.control && !key.alt {
                    let mut query: String = self.query.clone();
                    query.push(c);
                    self.set_query(query, now);
                }
            },
            _ => {},
        }
    }

    fn move_host_choice(&mut self, down: bool)
        ensures
            final(self)@ == old(self)@.host_key(
                Key {
                    code: if down { KeyCode::Down } else { KeyCode::Up },
                    control: false,
                    alt: false,
                },
            ).0,
            old(self)@.wf() ==> final(self)@.wf(),
    {
        if down {
            if self.host_choices.len() > 0 {
                let last: usize = self.host_choices.len() - 1;
                self.host_selected = if self.host_selected < last {
                    self.host_selected + 1
                } else {
                    last
                };
            }
        } else if self.host_selected > 0 {
            self.host_selected = self.host_selected - 1;
        }
    }

    fn handle_host_key(&mut self, key: Key) -> (r: Action)
        requires
            old(self)@.wf(),
        ensures
            final(self)@.wf(),
            (final(self)@, r@) == old(self)@.host_key(key),
    {
        match key.code {
            KeyCode::Esc => {
                self.input_mode = InputMode::Browse;
            },
            KeyCode::Down => {
                self.move_host_choice(true);
            },
            KeyCode::Up => {
                self.move_host_choice(false);
            },
            KeyCode::Enter => {
                if self.host_selected < self.host_choices.len() {
                    proof {
                        let i = self.host_selected as int;
                        assert(texts(self.host_choices@)[i] == self.host_choices@[i]@);
                    }
                    return Action::SetHostFilter(self.host_choices[self.host_selected].clone());
                }
            },
            KeyCode::Char(c) => {
                if c == 'q' {
                    self.input_mode = InputMode::Browse;
                } else if c == 'j' {
                    self.move_host_choice(true);
                } else if c == 'k' {
                    self.move_host_choice(false);
                }
            },
            _ => {},
        }
        Action::Nothing
    }

    fn handle_help_key(&mut self, key: Key)
        requires
            old(self)@.wf(),
        ensures
            final(self)@.wf(),
            final(self)@ == old(self)@.help_key(key),
    {
        match key.code {
            KeyCode::Esc | KeyCode::Enter => {
                self.input_mode = InputMode::Browse;
            },
            KeyCode::Char(c) => {
                if c == 'q' || c == '?' {
                    self.input_mode = InputMode::Browse;
                }
            },
            _ => {},
        }
    }

    fn scroll_down(&mut self, step: usize)
        ensures
            final(self)@ == old(self)@.scrolled(|n: usize| less(n, step)),
            old(self)@.wf() ==> final(self)@.wf(),
    {
        if let Some(preview) = &mut self.preview {
            preview.scroll_from_bottom = preview.scroll_from_bottom.saturating_sub(step);
        }
    }

    fn scroll_up(&mut self, step: usize)
        ensures
            final(self)@ == old(self)@.scrolled(|n: usize| more(n, step)),
            old(self)@.wf() ==> final(self)@.wf(),
    {
        if let Some(preview) = &mut self.preview {
            preview.scroll_from_bottom = preview.scroll_from_bottom.saturating_add(step);
        }
    }

    fn scroll_to_oldest(&mut self)
        ensures
            final(self)@ == old(self)@.scrolled(|n: usize| usize::MAX),
            old(self)@.wf() ==> final(self)@.wf(),
    {
        if let Some(preview) = &mut self.preview {
            preview.scroll_from_bottom = usize::MAX;
        }
    }

    fn scroll_to_newest(&mut self)
        ensures
            final(self)@ == old(self)@.scrolled(|n: usize| 0),
            old(self)@.wf() ==> final(self)@.wf(),
    {
        if let Some(preview) = &mut self.preview {
            preview.scroll_from_bottom = 0;
        }
    }

    fn previewed_id(&self) -> (r: Option<String>)
        ensures
            text_of(r) == match self@.preview {
                Some(preview) => Some(preview.session_id),
                None => None,
            },
    {
        match &self.preview {
            Some(preview) => Some(preview.session_id.clone()),
            None => None,
        }
    }

    fn handle_preview_char(&mut self, c: char) -> (r: Action)
        requires
            old(self)@.wf(),
        ensures
            final(self)@.wf(),
            forall|control: bool, alt: bool|
                (final(self)@, r@) == #[trigger] old(self)@.preview_key(
                    Key { code: KeyCode::Char(c), control, alt },
                ),
    {
        if c == 'q' || c == 'p' {
            self.close_preview();
        } else if c == 'j' {
            self.scroll_down(1);
        } else if c == 'k' {
            self.scroll_up(1);
        } else if c == 'g' {
            self.scroll_to_oldest();
        } else if c == 'G' {
            self.scroll_to_newest();
        } else if c == 'a' {
            if let Some(session_id) = self.previewed_id() {
                match self.archived_state_for_session(session_id.as_str()) {
                    None => {
                        self.close_preview();
                        self.status = Some(
                            "That session is no longer in the cached inventory.".to_owned(),
                        );
                    },
                    Some(archived) => {
                        self.close_preview();
                        return Action::SetArchived {
                            session_id,
                            archived: !archived,
                            attach: false,
                        };
                    },
                }
            }
        } else if c == 'x' {
            if let Some(session_id) = self.previewed_id() {
                return Action::Acknowledge(session_id);
            }
        }
        Action::Nothing
    }

    fn handle_preview_key(&mut self, key: Key) -> (r: Action)
        requires
            old(self)@.wf(),
        ensures
            final(self)@.wf(),
            (final(self)@, r@) == old(self)@.preview_key(key),
    {
        match key.code {
            KeyCode::Esc => {
                self.close_preview();
            },
            KeyCode::Down => {
                self.scroll_down(1);
            },
            KeyCode::PageDown => {
                self.scroll_down(10);
            },
            KeyCode::Up => {
                self.scroll_up(1);
            },
            KeyCode::PageUp => {
                self.scroll_up(10);
            },
            KeyCode::Home => {
                self.scroll_to_oldest();
            },
            KeyCode::End => {
                self.scroll_to_newest();
            },
            KeyCode::Enter => {
                if let Some(session_id) = self.previewed_id() {
                    return self.action_for_session(session_id.as_str());
                }
            },
            KeyCode::Char(c) => {
                let r: Action = self.handle_preview_char(c);
                assert(key == Key { code: KeyCode::Char(c), control: key.control, alt: key.alt });
                return r;
            },
            _ => {},
        }
        Action::Nothing
    }

    /// Does what a key means in the mode that the picker is in.
    pub fn handle_key(&mut self, key: Key, clock: Clock) -> (r: Action)
        requires
            old(self)@.wf(),
        ensures
            final(self)@.wf(),
            (final(self)@, r@) == old(self)@.key_pressed(key, clock.unix_seconds),
    {
        match self.input_mode {
            InputMode::Browse => self.handle_browse_key(key, clock.unix_seconds),
            InputMode::Search => {
                self.handle_search_key(key, clock.unix_seconds);
                Action::Nothing
            },
            InputMode::Hosts => self.handle_host_key(key),
            InputMode::Help => {
                self.handle_help_key(key);
                Action::Nothing
            },
            InputMode::Preview => self.handle_preview_key(key),
        }
    }
}

// ---- laws ----

proof fn lemma_first_with_id(sessions: Seq<Session>, id: Seq<char>)
    ensures
        first_with_id(sessions, id) matches Some(session) ==> session.id@ == id
            && sessions.contains(session),
    decreases sessions.len(),
{
    if sessions.len() > 0 && sessions[0].id@ != id {
        let rest = sessions.drop_first();
        lemma_first_with_id(rest, id);
        if let Some(session) = first_with_id(rest, id) {
            let k = choose|k: int| 0 <= k < rest.len() && rest[k] == session;
            assert(sessions[k + 1] == session);
        }
    }
}

/// A session that a live frontend elsewhere owns is never opened, nor is one that the
/// inventory does not hold. An active session is attached to as it is; a settled one is
/// restored first.
pub proof fn only_free_sessions_are_opened(v: PickerView, id: Seq<char>)
    ensures
        v.session_with_id(id) is None ==> v.opened(id).1 is Nothing,
        v.session_with_id(id) matches Some(session) ==> (session.runtime is ExternalFrontend
            && v.fresh_ids.contains(id) <==> v.opened(id).1 is Nothing),
        v.opened(id).1 matches ActionView::Attach(other) ==> other == id && v.archived_state(id)
            == Some(false),
        v.opened(id).1 matches ActionView::SetArchived { session_id, archived, attach } ==> session_id
            == id && !archived && attach && v.archived_state(id) == Some(true),
{
    lemma_first_with_id(v.active, id);
    lemma_first_with_id(v.settled, id);
}

/// Toggling a group or a part twice leaves it as it was, and toggling one leaves the others
/// as they are.
pub proof fn toggling_twice_restores(
    v: PickerView,
    key: GroupKeyView,
    section: DashboardSection,
    other: GroupKeyView,
)
    ensures
        v.with_group_toggled(key).with_group_toggled(key).collapsed_groups == v.collapsed_groups,
        v.with_section_toggled(section).with_section_toggled(section).expanded_sections
            == v.expanded_sections,
        other != key ==> (v.with_group_toggled(key).collapsed_groups.contains(other)
            <==> v.collapsed_groups.contains(other)),
        v.with_group_toggled(key).collapsed_groups.contains(key) <==> !v.collapsed_groups.contains(
            key,
        ),
{
    assert(v.with_group_toggled(key).with_group_toggled(key).collapsed_groups
        =~= v.collapsed_groups);
}

/// Looking changes nothing that is kept: no key changes the store or the inventory.
pub proof fn keys_change_nothing_that_is_kept(v: PickerView, key: Key, now: u64)
    ensures
        v.key_pressed(key, now).0.store == v.store,
        v.key_pressed(key, now).0.active == v.active,
        v.key_pressed(key, now).0.settled == v.settled,
        v.key_pressed(key, now).0.unread_ids == v.unread_ids,
{
}

/// The preview of a session whose pane is not live starts no capture.
pub proof fn cached_previews_capture_nothing(v: PickerView, session: Session)
    requires
        v.chosen_session() == Some(session),
        !v.fresh_ids.contains(session.id@) || !(session.runtime is TmuxFrontend),
    ensures
        v.previewed().effects == v.effects,
        v.previewed().preview is Some,
        v.previewed().preview->0.content is Ready,
{
}

} // verus!
