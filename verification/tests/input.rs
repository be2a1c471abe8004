use rollcall::domain::{Activity, AgentKind, RuntimeOwner, Session, TmuxBinding};
use rollcall::keyed::{StringMap, StringSet};
use rollcall::picker::{
    Action, Clock, DashboardRow, DashboardSection, Effect, GroupSet, InputMode,
    PREVIEW_CAPTURE_LINES, PickerApp, SectionSet,
};
use rollcall::picker::input::{Key, KeyCode};
use rollcall::picker::turns::Outcome;
use rollcall::reconnect::HostReconnectState;
use rollcall::store::{Store, StoreError};

const NOW: u64 = 2_000_000_000;
const CLOCK: Clock = Clock {
    unix_seconds: NOW,
    monotonic_millis: 1_000_000,
};
const LAPTOP: &str = "laptop";

fn session(id: &str, cwd: &str, title: &str) -> Session {
    Session {
        id: format!("topo:codex:{id}"),
        host: "topo".to_owned(),
        agent: AgentKind::Codex,
        native_session_id: id.to_owned(),
        title: title.to_owned(),
        cwd: cwd.to_owned(),
        source: "cli".to_owned(),
        activity: Activity::Completed,
        last_message: "The implementation is ready.".to_owned(),
        last_interaction_unix_seconds: NOW,
        updated_unix_seconds: NOW,
        runtime: RuntimeOwner::TmuxFrontend,
        tmux: Some(TmuxBinding {
            session: "agents".to_owned(),
            pane: "%3".to_owned(),
        }),
    }
}

fn set(keys: &[&str]) -> StringSet {
    let mut set = StringSet::new();
    for key in keys {
        set.insert((*key).to_owned());
    }
    set
}

fn app_with_sessions(active: Vec<Session>, settled: Vec<Session>) -> PickerApp {
    let mut fresh_ids = StringSet::new();
    for session in active.iter().chain(&settled) {
        fresh_ids.insert(session.id.clone());
    }
    let mut reconnect = StringMap::new();
    reconnect.insert(
        "local".to_owned(),
        HostReconnectState::new(CLOCK.monotonic_millis),
    );
    let mut app = PickerApp {
        store: Store::new(),
        active,
        settled,
        rows: Vec::new(),
        query: String::new(),
        selected_row: 0,
        input_mode: InputMode::Browse,
        expanded_sections: SectionSet {
            current: true,
            last_day: true,
            last_week: true,
            archive: false,
        },
        collapsed_groups: GroupSet::new(),
        show_details: false,
        host_filter: "all".to_owned(),
        host_choices: vec!["all".to_owned(), "topo".to_owned()],
        host_selected: 0,
        discovery_targets: vec!["local".to_owned()],
        pending_hosts: StringSet::new(),
        reachable_hosts: set(&["local"]),
        enriching_hosts: StringSet::new(),
        host_errors: StringMap::new(),
        fresh_ids,
        unread_ids: StringSet::new(),
        watching: false,
        initial_targets_remaining: StringSet::new(),
        refresh_generation: 0,
        reconnect,
        reconnect_jitter_seed: 0,
        activity_pending: StringSet::new(),
        last_activity_poll: StringMap::new(),
        limit: 50,
        status: None,
        notice: None,
        preview_request_id: 0,
        preview: None,
        effects: Vec::new(),
        local_hostname: LAPTOP.to_owned(),
        home: None,
    };
    app.rebuild_rows(NOW);
    app
}

#[test]
fn input_foreign_frontend_cannot_be_attached_without_managed_tmux() {
    let mut loaded = session("019f", "/fabric", "Loaded thread");
    loaded.runtime = RuntimeOwner::ExternalFrontend;
    loaded.tmux = None;
    loaded.activity = Activity::Working;
    let mut app = app_with_sessions(vec![loaded], Vec::new());

    assert_eq!(
        app.handle_key(Key::plain(KeyCode::Enter), CLOCK),
        Action::Nothing
    );
    assert!(
        app.status
            .as_deref()
            .is_some_and(|status| status.contains("close or release"))
    );
}

#[test]
fn quick_host_scope_keys_cycle_and_reset_the_filter() {
    let mut app = app_with_sessions(vec![session("019f", "/fabric", "Topo")], Vec::new());
    app.host_choices = vec!["all".to_owned(), "coda".to_owned(), "topo".to_owned()];
    assert_eq!(
        app.handle_key(Key::plain(KeyCode::Char(']')), CLOCK),
        Action::SetHostFilter("coda".to_owned())
    );
    app.set_host_filter("coda".to_owned(), CLOCK);
    assert_eq!(
        app.handle_key(Key::plain(KeyCode::Char('0')), CLOCK),
        Action::SetHostFilter("all".to_owned())
    );
}

#[test]
fn input_completed_foreign_frontend_is_also_left_alone() {
    let mut loaded = session("019f", "/fabric", "Loaded thread");
    loaded.runtime = RuntimeOwner::ExternalFrontend;
    loaded.tmux = None;
    let mut app = app_with_sessions(vec![loaded], Vec::new());

    assert_eq!(
        app.handle_key(Key::plain(KeyCode::Enter), CLOCK),
        Action::Nothing
    );
}

#[test]
fn input_shared_backend_threads_can_open_a_terminal_frontend() {
    let mut loaded = session("019f", "/fabric", "Backend-only thread");
    loaded.runtime = RuntimeOwner::SharedBackend;
    loaded.tmux = None;
    let mut app = app_with_sessions(vec![loaded], Vec::new());

    assert_eq!(
        app.handle_key(Key::plain(KeyCode::Enter), CLOCK),
        Action::Attach("topo:codex:019f".to_owned())
    );
}

#[test]
fn host_groups_can_collapse_without_losing_project_state() {
    let mut app = app_with_sessions(vec![session("019f", "/fabric", "One")], Vec::new());
    let host_row = app
        .rows
        .iter()
        .position(|row| matches!(row, DashboardRow::Host { .. }))
        .expect("host group should be rendered");
    app.selected_row = host_row;

    app.handle_key(Key::plain(KeyCode::Char(' ')), CLOCK);

    assert!(matches!(
        app.rows.get(host_row),
        Some(DashboardRow::Host {
            expanded: false,
            ..
        })
    ));
    assert_eq!(app.visible_session_count(), 0);
    assert!(app.selected_group_key().is_some());
}

#[test]
fn search_auto_expands_collapsed_archive_and_selects_match() {
    let mut app = app_with_sessions(
        Vec::new(),
        vec![session("019f", "/fabric", "Searchable archive")],
    );
    app.input_mode = InputMode::Search;

    for character in "searchable".chars() {
        app.handle_key(Key::plain(KeyCode::Char(character)), CLOCK);
    }

    assert_eq!(app.visible_session_count(), 1);
    assert_eq!(
        app.selected_session().map(|session| session.title.as_str()),
        Some("Searchable archive")
    );
    assert!(app.rows.iter().any(|row| matches!(
        row,
        DashboardRow::Section {
            section: DashboardSection::Archive,
            expanded: true,
            count: 1,
        }
    )));
    assert!(
        app.rows
            .iter()
            .any(|row| matches!(row, DashboardRow::Group { expanded: true, .. }))
    );
}

#[test]
fn input_archive_key_moves_active_session_to_settled_projection() {
    let mut app = app_with_sessions(vec![session("019f", "/fabric", "Archive me")], Vec::new());

    assert_eq!(
        app.handle_key(Key::plain(KeyCode::Char('a')), CLOCK),
        Action::SetArchived {
            session_id: "topo:codex:019f".to_owned(),
            archived: true,
            attach: false,
        }
    );
}

#[test]
fn input_acknowledge_key_targets_the_selected_session() {
    let mut app = app_with_sessions(vec![session("019f", "/fabric", "Read me")], Vec::new());
    app.unread_ids.insert("topo:codex:019f".to_owned());

    assert_eq!(
        app.handle_key(Key::plain(KeyCode::Char('x')), CLOCK),
        Action::Acknowledge("topo:codex:019f".to_owned())
    );
}

#[test]
fn input_preview_archive_action_uses_the_current_projection() {
    let mut candidate = session("019f", "/fabric", "Moved thread");
    candidate.runtime = RuntimeOwner::Resumable;
    candidate.tmux = None;
    let mut app = app_with_sessions(vec![candidate], Vec::new());
    app.start_preview();

    let moved = app.active.remove(0);
    app.settled.push(moved);

    assert_eq!(
        app.handle_key(Key::plain(KeyCode::Char('a')), CLOCK),
        Action::SetArchived {
            session_id: "topo:codex:019f".to_owned(),
            archived: false,
            attach: false,
        }
    );
    assert_eq!(app.input_mode, InputMode::Browse);
    assert!(app.preview.is_none());
}

#[test]
fn input_preview_enter_keeps_an_external_frontend_open_with_a_notice() {
    let mut candidate = session("019f", "/fabric", "External thread");
    candidate.runtime = RuntimeOwner::ExternalFrontend;
    candidate.tmux = None;
    let mut app = app_with_sessions(vec![candidate], Vec::new());
    app.start_preview();

    assert_eq!(
        app.handle_key(Key::plain(KeyCode::Enter), CLOCK),
        Action::Nothing
    );
    assert_eq!(app.input_mode, InputMode::Preview);
    assert!(
        app.preview
            .as_ref()
            .and_then(|preview| preview.notice.as_deref())
            .is_some_and(|notice| notice.contains("close or release"))
    );
}

#[test]
fn tab_toggles_the_selected_project_group() {
    let mut active = session("019f", "/fabric", "Active");
    active.activity = Activity::Working;
    let mut app = app_with_sessions(vec![active], vec![session("019e", "/fabric", "Settled")]);

    assert_eq!(
        app.selected_session().map(|session| session.title.as_str()),
        Some("Active")
    );
    app.handle_key(Key::plain(KeyCode::Tab), CLOCK);

    assert!(app.rows.iter().any(|row| matches!(
        row,
        DashboardRow::Group {
            cwd,
            expanded: false,
            ..
        } if cwd == "/fabric"
    )));
    assert_eq!(app.visible_session_count(), 0);
    assert!(app.selected_group_key().is_some());
    let group = app
        .selected_group_key()
        .expect("collapsed project group should remain selected");
    app.active.reverse();
    app.rebuild_rows(NOW);
    assert!(app.collapsed_groups.contains(&group));
    assert!(app.rows.iter().any(|row| matches!(
        row,
        DashboardRow::Group {
            expanded: false,
            ..
        }
    )));
}

#[test]
fn input_search_mode_filters_last_messages() {
    let mut app = app_with_sessions(
        vec![session("019f", "/fabric", "Rollcall picker")],
        Vec::new(),
    );
    app.input_mode = InputMode::Search;

    for character in "ready".chars() {
        assert_eq!(
            app.handle_key(Key::plain(KeyCode::Char(character)), CLOCK),
            Action::Nothing
        );
    }

    assert_eq!(app.visible_session_count(), 1);
}

#[test]
fn toggling_a_group_twice_restores_it() {
    let mut app = app_with_sessions(vec![session("019f", "/fabric", "One")], Vec::new());
    app.select_first();
    let before = app.rows.len();
    app.toggle_selected_row(NOW);
    assert!(app.rows.len() < before);
    app.toggle_selected_row(NOW);
    assert_eq!(app.rows.len(), before);
}

#[test]
fn keys_change_nothing_that_is_kept() {
    let mut app = app_with_sessions(
        vec![session("019f", "/fabric", "One")],
        vec![session("019e", "/fabric", "Two")],
    );
    let keys = [
        KeyCode::Char('j'),
        KeyCode::Char('G'),
        KeyCode::Char('g'),
        KeyCode::Char('p'),
        KeyCode::Char('j'),
        KeyCode::Esc,
        KeyCode::Char('/'),
        KeyCode::Char('z'),
        KeyCode::Backspace,
        KeyCode::Enter,
        KeyCode::Char('h'),
        KeyCode::Down,
        KeyCode::Esc,
        KeyCode::Char('?'),
        KeyCode::Esc,
        KeyCode::Char('i'),
        KeyCode::PageDown,
        KeyCode::Home,
        KeyCode::End,
        KeyCode::Up,
        KeyCode::Tab,
        KeyCode::Other,
    ];
    for code in keys {
        app.handle_key(Key::plain(code), CLOCK);
        assert_eq!(app.active.len(), 1);
        assert_eq!(app.settled.len(), 1);
        assert!(app.unread_ids.is_empty());
    }
    assert!(app.show_details);
}

#[test]
fn the_picker_is_left_by_several_keys() {
    let mut app = app_with_sessions(vec![session("019f", "/fabric", "One")], Vec::new());
    assert_eq!(
        app.handle_key(Key::plain(KeyCode::Char('q')), CLOCK),
        Action::Quit
    );
    let interrupt = Key {
        code: KeyCode::Char('c'),
        control: true,
        alt: false,
    };
    assert_eq!(app.handle_key(interrupt, CLOCK), Action::Quit);
    assert_eq!(
        app.handle_key(Key::plain(KeyCode::Char('r')), CLOCK),
        Action::Refresh
    );
}

#[test]
fn a_settled_session_is_restored_before_it_is_opened() {
    let mut settled = session("019f", "/fabric", "Settled");
    settled.runtime = RuntimeOwner::Resumable;
    settled.tmux = None;
    let mut app = app_with_sessions(Vec::new(), vec![settled]);
    assert_eq!(
        app.action_for_session("topo:codex:019f"),
        Action::SetArchived {
            session_id: "topo:codex:019f".to_owned(),
            archived: false,
            attach: true,
        }
    );
    assert_eq!(app.archived_state_for_session("topo:codex:019f"), Some(true));
    assert_eq!(app.archived_state_for_session("topo:codex:none"), None);
    assert_eq!(app.action_for_session("topo:codex:none"), Action::Nothing);
}

#[test]
fn choosing_a_host_asks_it_at_once() {
    let mut app = app_with_sessions(vec![session("019f", "/fabric", "One")], Vec::new());
    let mut state = app.reconnect.get("local").copied().expect("state");
    state.begin_attempt();
    state.succeeded(CLOCK.monotonic_millis, true);
    app.reconnect.insert("local".to_owned(), state);
    app.request_host_now("local", CLOCK.monotonic_millis);
    assert!(app
        .reconnect
        .get("local")
        .expect("state")
        .is_due(CLOCK.monotonic_millis));
}

#[test]
fn a_live_pane_is_captured_for_its_preview() {
    let mut app = app_with_sessions(vec![session("019f", "/fabric", "One")], Vec::new());
    app.start_preview();
    assert!(matches!(
        &app.effects[..],
        [Effect::CapturePane { session_id, pane, lines: PREVIEW_CAPTURE_LINES, .. }]
            if session_id == "topo:codex:019f" && pane == "%3"
    ));
}

#[test]
fn actions_are_performed() {
    let mut app = app_with_sessions(vec![session("019f", "/fabric", "One")], Vec::new());
    app.store.record(&app.active.clone(), NOW as i64);
    let id = "topo:codex:019f".to_owned();
    assert_eq!(app.perform(Action::Nothing, CLOCK), Ok(Outcome::Continue));
    assert_eq!(app.perform(Action::Quit, CLOCK), Ok(Outcome::Quit));
    assert_eq!(
        app.perform(Action::Attach(id.clone()), CLOCK),
        Ok(Outcome::Open(id.clone()))
    );
    assert_eq!(
        app.perform(
            Action::SetArchived {
                session_id: id.clone(),
                archived: true,
                attach: false,
            },
            CLOCK
        ),
        Ok(Outcome::Continue)
    );
    assert_eq!(app.archived_state_for_session(&id), Some(true));
    assert_eq!(
        app.perform(
            Action::SetArchived {
                session_id: id.clone(),
                archived: false,
                attach: true,
            },
            CLOCK
        ),
        Ok(Outcome::Open(id.clone()))
    );
    assert_eq!(app.archived_state_for_session(&id), Some(false));
    assert_eq!(
        app.perform(
            Action::SetArchived {
                session_id: "topo:codex:none".to_owned(),
                archived: true,
                attach: true,
            },
            CLOCK
        ),
        Err(StoreError::UnknownSession)
    );
    assert_eq!(
        app.perform(Action::SetHostFilter("topo".to_owned()), CLOCK),
        Ok(Outcome::Continue)
    );
    assert_eq!(app.host_filter, "topo");
    let generation = app.refresh_generation;
    assert_eq!(app.perform(Action::Refresh, CLOCK), Ok(Outcome::Continue));
    assert_ne!(app.refresh_generation, generation);
}

#[test]
fn a_turn_expires_the_notice_and_asks_the_hosts_that_are_due() {
    let mut app = app_with_sessions(Vec::new(), Vec::new());
    app.notice = Some(("read".to_owned(), CLOCK.monotonic_millis - 7_999));
    app.turn(CLOCK);
    assert!(app.notice.is_some());
    assert!(app.pending_hosts.contains("local"));
    app.notice = Some(("read".to_owned(), CLOCK.monotonic_millis - 8_000));
    app.turn(CLOCK);
    assert!(app.notice.is_none());
}

#[test]
fn a_watch_ends_once_nothing_is_awaited() {
    let mut app = app_with_sessions(Vec::new(), Vec::new());
    app.watching = true;
    assert!(!app.watch_turn(true, CLOCK));
    assert!(app.pending_hosts.contains("local"));
    app.pending_hosts.clear();
    assert!(app.watch_turn(true, CLOCK));
    assert!(!app.watch_turn(false, CLOCK));
}
