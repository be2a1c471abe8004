use rollcall::agents::observed_host;
use rollcall::domain::{Activity, AgentKind, RuntimeOwner, Session, TmuxBinding};
use rollcall::hosts::{ConnectivityState, SshHost};
use rollcall::keyed::{StringMap, StringSet};
use rollcall::picker::{
    Action, CachedDetail, Clock, DashboardRow, DashboardSelection, Effect, GroupSet, InputMode,
    PickerApp, PreviewContent, RefreshEvent, SectionSet,
};
use rollcall::picker::dashboard::session_matches;
use rollcall::picker::input::{Key, KeyCode};
use rollcall::picker::refresh::session_needs_detail;
use rollcall::picker::targets::{
    deduplicate_discovery_targets, normalize_host_filter, restrict_discovery_targets,
};
use rollcall::picker::view::text::{
    format_age, preview_window, truncate_with_ellipsis, wrap_preview_body,
};
use rollcall::reconnect::HostReconnectState;
use rollcall::store::{SessionTransition, SessionTransitionKind, Store};

const NOW: u64 = 1_000;
const CLOCK: Clock = Clock {
    unix_seconds: NOW,
    monotonic_millis: 1_000_000,
};
const LAPTOP: &str = "laptop";

fn session(id: &str, cwd: &str, title: &str) -> Session {
    Session {
        id: format!("topo:codex:{id}"),
        host: "topo".to_owned(),
        agent: AgentKind::Codex,
        native_session_id: id.to_owned(),
        title: title.to_owned(),
        cwd: cwd.to_owned(),
        source: "cli".to_owned(),
        activity: Activity::Completed,
        last_message: "The implementation is ready.".to_owned(),
        last_interaction_unix_seconds: 100,
        updated_unix_seconds: 100,
        runtime: RuntimeOwner::TmuxFrontend,
        tmux: Some(TmuxBinding {
            session: "agents".to_owned(),
            pane: "%3".to_owned(),
        }),
    }
}

fn set(keys: &[&str]) -> StringSet {
    let mut set = StringSet::new();
    for key in keys {
        set.insert((*key).to_owned());
    }
    set
}

fn app_with_sessions(active: Vec<Session>, settled: Vec<Session>) -> PickerApp {
    let mut fresh_ids = StringSet::new();
    for session in active.iter().chain(&settled) {
        fresh_ids.insert(session.id.clone());
    }
    let mut reconnect = StringMap::new();
    reconnect.insert(
        "local".to_owned(),
        HostReconnectState::new(CLOCK.monotonic_millis),
    );
    let mut app = PickerApp {
        store: Store::new(),
        active,
        settled,
        rows: Vec::new(),
        query: String::new(),
        selected_row: 0,
        input_mode: InputMode::Browse,
        expanded_sections: SectionSet {
            current: true,
            last_day: true,
            last_week: true,
            archive: false,
        },
        collapsed_groups: GroupSet::new(),
        show_details: false,
        host_filter: "all".to_owned(),
        host_choices: vec!["all".to_owned(), "topo".to_owned()],
        host_selected: 0,
        discovery_targets: vec!["local".to_owned()],
        pending_hosts: StringSet::new(),
        reachable_hosts: set(&["local"]),
        enriching_hosts: StringSet::new(),
        host_errors: StringMap::new(),
        fresh_ids,
        unread_ids: StringSet::new(),
        watching: false,
        initial_targets_remaining: StringSet::new(),
        refresh_generation: 0,
        reconnect,
        reconnect_jitter_seed: 0,
        activity_pending: StringSet::new(),
        last_activity_poll: StringMap::new(),
        limit: 50,
        status: None,
        notice: None,
        preview_request_id: 0,
        preview: None,
        effects: Vec::new(),
        local_hostname: LAPTOP.to_owned(),
        home: None,
    };
    app.rebuild_rows(NOW);
    app
}

fn one<V>(key: String, value: V) -> StringMap<V> {
    let mut map = StringMap::new();
    map.insert(key, value);
    map
}

#[test]
fn picker_search_matches_session_metadata_status_and_last_message() {
    let session = session("019f", "/home/fin/projects/rollcall", "Rollcall picker");
    assert!(session_matches(&session, "picker"));
    assert!(session_matches(&session, "implementation is ready"));
    assert!(session_matches(&session, "completed"));
    assert!(session_matches(&session, "projects/rollcall"));
    assert!(session_matches(&session, "agents"));
    assert!(session_matches(&session, "019f"));
    assert!(!session_matches(&session, "coda"));
}

#[test]
fn picker_picker_ages_are_compact() {
    let now = 2_000_000_000_u64;
    assert_eq!(format_age(now.saturating_sub(5), now), "5s");
    assert_eq!(format_age(now.saturating_sub(120), now), "2m");
    assert_eq!(format_age(now.saturating_sub(7_200), now), "2h");
    assert_eq!(format_age(now.saturating_sub(172_800), now), "2d");
}

#[test]
fn picker_local_host_filter_uses_the_observed_hostname() {
    assert_eq!(
        normalize_host_filter("local", LAPTOP),
        observed_host("local", LAPTOP)
    );
    assert_eq!(normalize_host_filter("all", LAPTOP), "all");
    assert_eq!(normalize_host_filter("coda", LAPTOP), "coda");
}

#[test]
fn picker_foreign_frontend_cannot_be_attached_without_managed_tmux() {
    let mut loaded = session("019f", "/fabric", "Loaded thread");
    loaded.runtime = RuntimeOwner::ExternalFrontend;
    loaded.tmux = None;
    loaded.activity = Activity::Working;
    let mut app = app_with_sessions(vec![loaded], Vec::new());

    assert_eq!(
        app.handle_key(Key::plain(KeyCode::Enter), CLOCK),
        Action::Nothing
    );
    assert!(
        app.status
            .as_deref()
            .is_some_and(|status| status.contains("close or release"))
    );
}

#[test]
fn picker_completed_foreign_frontend_is_also_left_alone() {
    let mut loaded = session("019f", "/fabric", "Loaded thread");
    loaded.runtime = RuntimeOwner::ExternalFrontend;
    loaded.tmux = None;
    let mut app = app_with_sessions(vec![loaded], Vec::new());

    assert_eq!(
        app.handle_key(Key::plain(KeyCode::Enter), CLOCK),
        Action::Nothing
    );
}

#[test]
fn picker_shared_backend_threads_can_open_a_terminal_frontend() {
    let mut loaded = session("019f", "/fabric", "Backend-only thread");
    loaded.runtime = RuntimeOwner::SharedBackend;
    loaded.tmux = None;
    let mut app = app_with_sessions(vec![loaded], Vec::new());

    assert_eq!(
        app.handle_key(Key::plain(KeyCode::Enter), CLOCK),
        Action::Attach("topo:codex:019f".to_owned())
    );
}

#[test]
fn picker_sessions_are_nested_beneath_directory_and_host_groups() {
    let app = app_with_sessions(
        vec![
            session("019f", "/fabric", "One"),
            session("019e", "/fabric", "Two"),
            session("019d", "/tmp/project", "Three"),
        ],
        Vec::new(),
    );

    assert_eq!(
        app.rows
            .iter()
            .filter(|row| matches!(row, DashboardRow::Group { .. }))
            .count(),
        2
    );
    assert_eq!(app.visible_session_count(), 3);
}

#[test]
fn picker_archive_key_moves_active_session_to_settled_projection() {
    let mut app = app_with_sessions(vec![session("019f", "/fabric", "Archive me")], Vec::new());

    assert_eq!(
        app.handle_key(Key::plain(KeyCode::Char('a')), CLOCK),
        Action::SetArchived {
            session_id: "topo:codex:019f".to_owned(),
            archived: true,
            attach: false,
        }
    );
}

#[test]
fn picker_acknowledge_key_targets_the_selected_session() {
    let mut app = app_with_sessions(vec![session("019f", "/fabric", "Read me")], Vec::new());
    app.unread_ids.insert("topo:codex:019f".to_owned());

    assert_eq!(
        app.handle_key(Key::plain(KeyCode::Char('x')), CLOCK),
        Action::Acknowledge("topo:codex:019f".to_owned())
    );
}

#[test]
fn picker_resumable_preview_uses_cached_response_without_starting_a_capture() {
    let mut candidate = session("019f", "/fabric", "Cached thread");
    candidate.runtime = RuntimeOwner::Resumable;
    candidate.tmux = None;
    let mut app = app_with_sessions(vec![candidate], Vec::new());

    app.start_preview();

    assert_eq!(app.input_mode, InputMode::Preview);
    let preview = app.preview.as_ref().expect("preview should open");
    match &preview.content {
        PreviewContent::Ready { source, body } => {
            assert_eq!(*source, "cached response");
            assert!(body.contains("The implementation is ready."));
        }
        _ => panic!("expected cached preview"),
    }
    assert!(app.effects.is_empty());
}

#[test]
fn picker_preview_archive_action_uses_the_current_projection() {
    let mut candidate = session("019f", "/fabric", "Moved thread");
    candidate.runtime = RuntimeOwner::Resumable;
    candidate.tmux = None;
    let mut app = app_with_sessions(vec![candidate], Vec::new());
    app.start_preview();

    let moved = app.active.remove(0);
    app.settled.push(moved);

    assert_eq!(
        app.handle_key(Key::plain(KeyCode::Char('a')), CLOCK),
        Action::SetArchived {
            session_id: "topo:codex:019f".to_owned(),
            archived: false,
            attach: false,
        }
    );
    assert_eq!(app.input_mode, InputMode::Browse);
    assert!(app.preview.is_none());
}

#[test]
fn picker_preview_enter_keeps_an_external_frontend_open_with_a_notice() {
    let mut candidate = session("019f", "/fabric", "External thread");
    candidate.runtime = RuntimeOwner::ExternalFrontend;
    candidate.tmux = None;
    let mut app = app_with_sessions(vec![candidate], Vec::new());
    app.start_preview();

    assert_eq!(
        app.handle_key(Key::plain(KeyCode::Enter), CLOCK),
        Action::Nothing
    );
    assert_eq!(app.input_mode, InputMode::Preview);
    assert!(
        app.preview
            .as_ref()
            .and_then(|preview| preview.notice.as_deref())
            .is_some_and(|notice| notice.contains("close or release"))
    );
}

#[test]
fn picker_preview_refresh_ignores_stale_results_and_accepts_the_matching_capture() {
    let mut candidate = session("019f", "/fabric", "Preview refresh");
    candidate.runtime = RuntimeOwner::Resumable;
    candidate.tmux = None;
    let mut app = app_with_sessions(vec![candidate], Vec::new());
    app.start_preview();
    let request_id = app
        .preview
        .as_ref()
        .expect("preview should open")
        .request_id;

    app.apply_refresh_event(
        RefreshEvent::Preview {
            request_id: request_id.wrapping_add(1),
            session_id: "topo:codex:019f".to_owned(),
            result: Ok("stale capture".to_owned()),
        },
        CLOCK,
    );
    assert!(matches!(
        app.preview.as_ref().map(|preview| &preview.content),
        Some(PreviewContent::Ready {
            source: "cached response",
            ..
        })
    ));

    app.apply_refresh_event(
        RefreshEvent::Preview {
            request_id,
            session_id: "topo:codex:019f".to_owned(),
            result: Ok("live pane output".to_owned()),
        },
        CLOCK,
    );
    assert!(matches!(
        app.preview.as_ref().map(|preview| &preview.content),
        Some(PreviewContent::Ready {
            source: "live tmux pane",
            body,
        }) if body == "live pane output"
    ));
}

#[test]
fn picker_preview_window_starts_at_the_newest_lines_and_scrolls_toward_history() {
    let lines = wrap_preview_body("one\ntwo\nthree\nfour\nfive", 20);

    assert_eq!(preview_window(&lines, 3, 0), "three\nfour\nfive");
    assert_eq!(preview_window(&lines, 3, 1), "two\nthree\nfour");
    assert_eq!(preview_window(&lines, 3, usize::MAX), "one\ntwo\nthree");
    assert_eq!(wrap_preview_body("abcdefgh", 3), vec!["abc", "def", "gh"]);
}

#[test]
fn picker_search_mode_filters_last_messages() {
    let mut app = app_with_sessions(
        vec![session("019f", "/fabric", "Rollcall picker")],
        Vec::new(),
    );
    app.input_mode = InputMode::Search;

    for character in "ready".chars() {
        assert_eq!(
            app.handle_key(Key::plain(KeyCode::Char(character)), CLOCK),
            Action::Nothing
        );
    }

    assert_eq!(app.visible_session_count(), 1);
}

#[test]
fn picker_progressive_refresh_keeps_the_same_session_selected_after_reordering() {
    let mut first = session("019f", "/fabric", "First");
    first.last_interaction_unix_seconds = 200;
    let mut second = session("019e", "/fabric", "Second");
    second.last_interaction_unix_seconds = 100;
    let mut app = app_with_sessions(vec![first, second], Vec::new());
    app.select_next();
    let selected_id = app
        .selected_session()
        .map(|session| session.id.clone())
        .expect("a session should be selected");

    app.active.reverse();
    app.rebuild_rows_selecting(Some(DashboardSelection::Session(selected_id.clone())), NOW);

    assert_eq!(
        app.selected_session().map(|session| session.id.as_str()),
        Some(selected_id.as_str())
    );
}

#[test]
fn picker_equivalent_ssh_aliases_are_probed_once_using_the_shortest_name() {
    let host = |alias: &str, hostname: &str| SshHost {
        alias: alias.to_owned(),
        hostname: hostname.to_owned(),
        user: Some("fin".to_owned()),
        port: 22,
        source: "test".to_owned(),
        identity_files: Vec::new(),
        connectivity: ConnectivityState::Unknown,
        resolution_error: None,
    };

    assert_eq!(
        deduplicate_discovery_targets(vec![
            host("aurkitu.daggertooth-byzantine.ts.net", "100.64.0.1"),
            host("aurkitu", "100.64.0.1"),
            host("coda", "100.64.0.2"),
        ]),
        vec!["local", "aurkitu", "coda"]
    );
}

#[test]
fn picker_watch_restricts_network_work_to_the_selected_host() {
    let targets = vec!["local".to_owned(), "aurkitu".to_owned(), "coda".to_owned()];

    assert_eq!(
        restrict_discovery_targets(targets.clone(), "local", LAPTOP),
        ["local"]
    );
    assert_eq!(
        restrict_discovery_targets(targets.clone(), "coda", LAPTOP),
        ["coda"]
    );
    assert_eq!(
        restrict_discovery_targets(targets, "unlisted", LAPTOP),
        ["unlisted"]
    );
}

#[test]
fn picker_watch_receives_the_same_transitions_as_the_picker() {
    let mut app = app_with_sessions(Vec::new(), Vec::new());
    app.watching = true;
    let transition = SessionTransition {
        session_id: "topo:codex:019f".to_owned(),
        title: "Ready".to_owned(),
        host: "topo".to_owned(),
        kind: SessionTransitionKind::Completed,
        observed_at_unix_seconds: 100,
    };

    app.handle_transitions(&vec![transition.clone()], CLOCK);

    assert!(app.take_effects().into_iter().any(
        |effect| matches!(effect, Effect::EmitTransition(emitted) if emitted == transition)
    ));
}

#[test]
fn picker_one_shot_watch_finishes_after_initial_work_drains() {
    let mut app = app_with_sessions(Vec::new(), Vec::new());
    app.initial_targets_remaining.insert("local".to_owned());
    assert!(!app.initial_refresh_complete());

    app.initial_targets_remaining.clear();
    app.pending_hosts.insert("local".to_owned());
    assert!(!app.initial_refresh_complete());

    app.pending_hosts.clear();
    assert!(app.initial_refresh_complete());
}

#[test]
fn picker_unchanged_sessions_with_messages_skip_expensive_detail_reads() {
    let session = session("019f", "/fabric", "Rollcall");
    let cached = one(
        session.native_session_id.clone(),
        CachedDetail {
            last_interaction: session.last_interaction_unix_seconds,
            updated: session.updated_unix_seconds,
            has_message: true,
        },
    );

    assert!(!session_needs_detail(&session, &cached));
}

#[test]
fn picker_changed_or_unseen_sessions_request_detail_reads() {
    let session = session("019f", "/fabric", "Rollcall");
    let stale = one(
        session.native_session_id.clone(),
        CachedDetail {
            last_interaction: session.last_interaction_unix_seconds.saturating_sub(1),
            updated: session.updated_unix_seconds,
            has_message: true,
        },
    );

    assert!(session_needs_detail(&session, &stale));
    assert!(session_needs_detail(&session, &StringMap::new()));
}

#[test]
fn picker_dense_rows_truncate_with_an_ellipsis() {
    assert_eq!(truncate_with_ellipsis("abcdef", 4), "abc…");
    assert_eq!(truncate_with_ellipsis("a", 1), "a");
    assert_eq!(truncate_with_ellipsis("ab", 1), "…");
}
