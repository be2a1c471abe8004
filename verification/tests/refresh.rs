use rollcall::agents::observed_host;
use rollcall::domain::{Activity, AgentKind, LiveObservation, RuntimeOwner, Session, TmuxBinding};
use rollcall::hosts::{ConnectivityState, SshHost};
use rollcall::keyed::{StringMap, StringSet};
use rollcall::picker::{
    CachedDetail, Clock, Effect, GroupSet, InputMode, MAX_CONCURRENT_HOST_REFRESHES, PickerApp,
    PreviewContent, RefreshEvent, SectionSet,
};
use rollcall::picker::popup::transition_line;
use rollcall::picker::refresh::{session_needs_detail, sessions_needing_detail};
use rollcall::picker::targets::{
    PickerSetup, deduplicate_discovery_targets, normalize_host_filter, reconnect_jitter_seed,
    restrict_discovery_targets,
};
use rollcall::reconnect::HostReconnectState;
use rollcall::store::{SessionTransition, SessionTransitionKind, Store};

const NOW: u64 = 2_000_000_000;
const CLOCK: Clock = Clock {
    unix_seconds: NOW,
    monotonic_millis: 1_000_000,
};
const LAPTOP: &str = "laptop";

fn session(id: &str, cwd: &str, title: &str) -> Session {
    Session {
        id: format!("topo:codex:{id}"),
        host: "topo".to_owned(),
        agent: AgentKind::Codex,
        native_session_id: id.to_owned(),
        title: title.to_owned(),
        cwd: cwd.to_owned(),
        source: "cli".to_owned(),
        activity: Activity::Completed,
        last_message: "The implementation is ready.".to_owned(),
        last_interaction_unix_seconds: NOW,
        updated_unix_seconds: NOW,
        runtime: RuntimeOwner::TmuxFrontend,
        tmux: Some(TmuxBinding {
            session: "agents".to_owned(),
            pane: "%3".to_owned(),
        }),
    }
}

fn set(keys: &[&str]) -> StringSet {
    let mut set = StringSet::new();
    for key in keys {
        set.insert((*key).to_owned());
    }
    set
}

fn app_with_sessions(active: Vec<Session>, settled: Vec<Session>) -> PickerApp {
    let mut fresh_ids = StringSet::new();
    for session in active.iter().chain(&settled) {
        fresh_ids.insert(session.id.clone());
    }
    let mut reconnect = StringMap::new();
    reconnect.insert(
        "local".to_owned(),
        HostReconnectState::new(CLOCK.monotonic_millis),
    );
    let mut app = PickerApp {
        store: Store::new(),
        active,
        settled,
        rows: Vec::new(),
        query: String::new(),
        selected_row: 0,
        input_mode: InputMode::Browse,
        expanded_sections: SectionSet {
            current: true,
            last_day: true,
            last_week: true,
            archive: false,
        },
        collapsed_groups: GroupSet::new(),
        show_details: false,
        host_filter: "all".to_owned(),
        host_choices: vec!["all".to_owned(), "topo".to_owned()],
        host_selected: 0,
        discovery_targets: vec!["local".to_owned()],
        pending_hosts: StringSet::new(),
        reachable_hosts: set(&["local"]),
        enriching_hosts: StringSet::new(),
        host_errors: StringMap::new(),
        fresh_ids,
        unread_ids: StringSet::new(),
        watching: false,
        initial_targets_remaining: StringSet::new(),
        refresh_generation: 0,
        reconnect,
        reconnect_jitter_seed: 0,
        activity_pending: StringSet::new(),
        last_activity_poll: StringMap::new(),
        limit: 50,
        status: None,
        notice: None,
        preview_request_id: 0,
        preview: None,
        effects: Vec::new(),
        local_hostname: LAPTOP.to_owned(),
        home: None,
    };
    app.rebuild_rows(NOW);
    app
}

fn one<V>(key: String, value: V) -> StringMap<V> {
    let mut map = StringMap::new();
    map.insert(key, value);
    map
}

#[test]
fn archive_roundtrip_preserves_the_selected_session_when_a_projection_empties() {
    let candidate = session("019f", "/fabric", "Archive roundtrip");
    let id = candidate.id.clone();
    let mut app = app_with_sessions(vec![candidate], Vec::new());
    app.store.record(&app.active.clone(), NOW as i64);
    app.query = "Archive roundtrip".to_owned();
    app.rebuild_rows(NOW);

    for archived in [true, false] {
        app.set_archived(&id, archived, CLOCK)
            .expect("archive state should change");
        assert_eq!(app.selected_session().map(|session| &session.id), Some(&id));
        assert_eq!(app.visible_session_count(), 1);
        assert_eq!(
            app.store.load(archived)[0].id,
            id
        );
        assert!(
            app.store.load(!archived)
                .is_empty()
        );
    }
}

#[test]
fn refresh_local_host_filter_uses_the_observed_hostname() {
    assert_eq!(
        normalize_host_filter("local", LAPTOP),
        observed_host("local", LAPTOP)
    );
    assert_eq!(normalize_host_filter("all", LAPTOP), "all");
    assert_eq!(normalize_host_filter("coda", LAPTOP), "coda");
}

#[test]
fn refresh_resumable_preview_uses_cached_response_without_starting_a_capture() {
    let mut candidate = session("019f", "/fabric", "Cached thread");
    candidate.runtime = RuntimeOwner::Resumable;
    candidate.tmux = None;
    let mut app = app_with_sessions(vec![candidate], Vec::new());

    app.start_preview();

    assert_eq!(app.input_mode, InputMode::Preview);
    let preview = app.preview.as_ref().expect("preview should open");
    match &preview.content {
        PreviewContent::Ready { source, body } => {
            assert_eq!(*source, "cached response");
            assert!(body.contains("The implementation is ready."));
        }
        _ => panic!("expected cached preview"),
    }
    assert!(app.effects.is_empty());
}

#[test]
fn refresh_preview_refresh_ignores_stale_results_and_accepts_the_matching_capture() {
    let mut candidate = session("019f", "/fabric", "Preview refresh");
    candidate.runtime = RuntimeOwner::Resumable;
    candidate.tmux = None;
    let mut app = app_with_sessions(vec![candidate], Vec::new());
    app.start_preview();
    let request_id = app
        .preview
        .as_ref()
        .expect("preview should open")
        .request_id;

    app.apply_refresh_event(
        RefreshEvent::Preview {
            request_id: request_id.wrapping_add(1),
            session_id: "topo:codex:019f".to_owned(),
            result: Ok("stale capture".to_owned()),
        },
        CLOCK,
    );
    assert!(matches!(
        app.preview.as_ref().map(|preview| &preview.content),
        Some(PreviewContent::Ready {
            source: "cached response",
            ..
        })
    ));

    app.apply_refresh_event(
        RefreshEvent::Preview {
            request_id,
            session_id: "topo:codex:019f".to_owned(),
            result: Ok("live pane output".to_owned()),
        },
        CLOCK,
    );
    assert!(matches!(
        app.preview.as_ref().map(|preview| &preview.content),
        Some(PreviewContent::Ready {
            source: "live tmux pane",
            body,
        }) if body == "live pane output"
    ));
}

#[test]
fn refresh_live_observations_update_working_and_completed_state() {
    let observed_host = observed_host("local", LAPTOP);
    let mut candidate = session("019f", "/fabric", "Live thread");
    candidate.host.clone_from(&observed_host);
    candidate.id = format!("{observed_host}:codex:019f");
    candidate.runtime = RuntimeOwner::ExternalFrontend;
    candidate.tmux = None;
    let session_id = candidate.id.clone();
    let mut app = app_with_sessions(vec![candidate], Vec::new());

    app.apply_live_observations(
        "local",
        &one(
            session_id.clone(),
            LiveObservation {
                activity: Activity::Working,
                runtime: RuntimeOwner::ExternalFrontend,
                tmux: None,
            },
        ),
        CLOCK,
    );
    assert_eq!(app.active[0].activity, Activity::Working);

    app.apply_live_observations(
        "local",
        &one(
            session_id,
            LiveObservation {
                activity: Activity::Completed,
                runtime: RuntimeOwner::ExternalFrontend,
                tmux: None,
            },
        ),
        CLOCK,
    );
    assert_eq!(app.active[0].activity, Activity::Completed);
    assert!(app.unread_ids.contains(&app.active[0].id));
}

#[test]
fn refresh_equivalent_ssh_aliases_are_probed_once_using_the_shortest_name() {
    let host = |alias: &str, hostname: &str| SshHost {
        alias: alias.to_owned(),
        hostname: hostname.to_owned(),
        user: Some("fin".to_owned()),
        port: 22,
        source: "test".to_owned(),
        identity_files: Vec::new(),
        connectivity: ConnectivityState::Unknown,
        resolution_error: None,
    };

    assert_eq!(
        deduplicate_discovery_targets(vec![
            host("aurkitu.daggertooth-byzantine.ts.net", "100.64.0.1"),
            host("aurkitu", "100.64.0.1"),
            host("coda", "100.64.0.2"),
        ]),
        vec!["local", "aurkitu", "coda"]
    );
}

#[test]
fn refresh_watch_restricts_network_work_to_the_selected_host() {
    let targets = vec!["local".to_owned(), "aurkitu".to_owned(), "coda".to_owned()];

    assert_eq!(
        restrict_discovery_targets(targets.clone(), "local", LAPTOP),
        ["local"]
    );
    assert_eq!(
        restrict_discovery_targets(targets.clone(), "coda", LAPTOP),
        ["coda"]
    );
    assert_eq!(
        restrict_discovery_targets(targets, "unlisted", LAPTOP),
        ["unlisted"]
    );
}

#[test]
fn watch_transition_output_supports_text_lines() {
    let transition = SessionTransition {
        session_id: "topo:codex:019f".to_owned(),
        title: "Needs\tattention".to_owned(),
        host: "topo".to_owned(),
        kind: SessionTransitionKind::Input,
        observed_at_unix_seconds: 100,
    };
    assert_eq!(
        transition_line(&transition),
        "100\tinput\ttopo\tNeeds attention\ttopo:codex:019f"
    );
}

#[test]
fn refresh_watch_receives_the_same_transitions_as_the_picker() {
    let mut app = app_with_sessions(Vec::new(), Vec::new());
    app.watching = true;
    let transition = SessionTransition {
        session_id: "topo:codex:019f".to_owned(),
        title: "Ready".to_owned(),
        host: "topo".to_owned(),
        kind: SessionTransitionKind::Completed,
        observed_at_unix_seconds: 100,
    };

    app.handle_transitions(&vec![transition.clone()], CLOCK);

    assert!(app.take_effects().into_iter().any(
        |effect| matches!(effect, Effect::EmitTransition(emitted) if emitted == transition)
    ));
}

#[test]
fn refresh_one_shot_watch_finishes_after_initial_work_drains() {
    let mut app = app_with_sessions(Vec::new(), Vec::new());
    app.initial_targets_remaining.insert("local".to_owned());
    assert!(!app.initial_refresh_complete());

    app.initial_targets_remaining.clear();
    app.pending_hosts.insert("local".to_owned());
    assert!(!app.initial_refresh_complete());

    app.pending_hosts.clear();
    assert!(app.initial_refresh_complete());
}

#[test]
fn refresh_unchanged_sessions_with_messages_skip_expensive_detail_reads() {
    let session = session("019f", "/fabric", "Rollcall");
    let cached = one(
        session.native_session_id.clone(),
        CachedDetail {
            last_interaction: session.last_interaction_unix_seconds,
            updated: session.updated_unix_seconds,
            has_message: true,
        },
    );

    assert!(!session_needs_detail(&session, &cached));
}

#[test]
fn refresh_changed_or_unseen_sessions_request_detail_reads() {
    let session = session("019f", "/fabric", "Rollcall");
    let stale = one(
        session.native_session_id.clone(),
        CachedDetail {
            last_interaction: session.last_interaction_unix_seconds.saturating_sub(1),
            updated: session.updated_unix_seconds,
            has_message: true,
        },
    );

    assert!(session_needs_detail(&session, &stale));
    assert!(session_needs_detail(&session, &StringMap::new()));
}

#[test]
fn late_answers_change_nothing() {
    let mut app = app_with_sessions(vec![session("019f", "/fabric", "One")], Vec::new());
    app.refresh_generation = 4;
    app.apply_refresh_event(
        RefreshEvent::Failed {
            generation: 3,
            target: "local".to_owned(),
            error: "late".to_owned(),
        },
        CLOCK,
    );
    assert!(app.host_errors.is_empty());
    assert_eq!(app.active.len(), 1);
}

#[test]
fn few_hosts_are_asked_at_a_time() {
    let mut app = app_with_sessions(Vec::new(), Vec::new());
    app.discovery_targets = (0..7).map(|n| format!("host{n}")).collect();
    app.reconnect = StringMap::new();
    for target in app.discovery_targets.clone() {
        app.reconnect
            .insert(target, HostReconnectState::new(CLOCK.monotonic_millis));
    }
    app.maybe_start_host_refreshes(CLOCK);
    assert_eq!(app.pending_hosts.len(), MAX_CONCURRENT_HOST_REFRESHES);
    let asked = app.take_effects();
    assert_eq!(asked.len(), MAX_CONCURRENT_HOST_REFRESHES);
    assert!(asked
        .iter()
        .all(|effect| matches!(effect, Effect::Discover { limit: 50, .. })));
    app.maybe_start_host_refreshes(CLOCK);
    assert!(app.take_effects().is_empty());
}

#[test]
fn a_refresh_asks_every_host_again() {
    let mut app = app_with_sessions(Vec::new(), Vec::new());
    let before = app.refresh_generation;
    app.start_refresh(CLOCK);
    assert_ne!(app.refresh_generation, before);
    assert!(app.pending_hosts.contains("local"));
}

#[test]
fn a_failed_host_keeps_its_sessions_and_says_why() {
    let mut app = app_with_sessions(vec![session("019f", "/fabric", "One")], Vec::new());
    app.store.record(&app.active.clone(), NOW as i64);
    app.apply_refresh_event(
        RefreshEvent::Failed {
            generation: app.refresh_generation,
            target: "topo".to_owned(),
            error: "timed out".to_owned(),
        },
        CLOCK,
    );
    assert_eq!(app.active.len(), 1);
    assert_eq!(
        app.host_errors.get("topo").map(String::as_str),
        Some("timed out")
    );
    assert!(!app.fresh_ids.contains("topo:codex:019f"));
}

#[test]
fn an_answer_is_kept_and_its_transitions_are_told() {
    let mut app = app_with_sessions(Vec::new(), Vec::new());
    app.watching = true;
    let mut working = session("019f", "/fabric", "One");
    working.activity = Activity::Working;
    app.apply_refresh_event(
        RefreshEvent::Detailed {
            generation: app.refresh_generation,
            target: "topo".to_owned(),
            sessions: vec![working.clone()],
        },
        CLOCK,
    );
    assert_eq!(app.active, [working.clone()]);
    assert!(app.take_effects().is_empty());

    app.apply_refresh_event(
        RefreshEvent::Activity {
            generation: app.refresh_generation,
            target: "topo".to_owned(),
            observations: Ok(one(
                working.id.clone(),
                LiveObservation {
                    activity: Activity::Completed,
                    runtime: RuntimeOwner::TmuxFrontend,
                    tmux: working.tmux.clone(),
                },
            )),
        },
        CLOCK,
    );
    let effects = app.take_effects();
    assert!(matches!(
        &effects[..],
        [Effect::NotifyTransition(told), Effect::EmitTransition(emitted)]
            if told == emitted && told.session_id == working.id
    ));
    assert!(app.unread_ids.contains(&working.id));
    app.acknowledge_session(&working.id, false, CLOCK);
    assert!(app.unread_ids.is_empty());
}

#[test]
fn a_process_that_vanished_leaves_a_resumable_session() {
    let mut candidate = session("019f", "/fabric", "One");
    candidate.host = LAPTOP.to_owned();
    candidate.id = format!("{LAPTOP}:codex:019f");
    let mut app = app_with_sessions(vec![candidate.clone()], Vec::new());
    app.store.record(&app.active.clone(), NOW as i64);
    app.apply_live_observations("local", &StringMap::new(), CLOCK);
    assert_eq!(app.active[0].runtime, RuntimeOwner::Resumable);
    assert_eq!(app.active[0].tmux, None);
}

#[test]
fn live_activity_is_polled_in_turn() {
    let mut candidate = session("019f", "/fabric", "One");
    candidate.host = LAPTOP.to_owned();
    let mut app = app_with_sessions(vec![candidate], Vec::new());
    app.maybe_start_activity_poll(CLOCK);
    let first = app.take_effects();
    assert!(matches!(
        &first[..],
        [Effect::ObserveLive { target, .. }] if target == "local"
    ));
    app.maybe_start_activity_poll(CLOCK);
    assert!(app.take_effects().is_empty());
}

#[test]
fn a_new_picker_asks_its_targets() {
    let app = PickerApp::new(
        PickerSetup {
            initial_host: "local".to_owned(),
            limit: 12,
            discovery_targets: vec!["local".to_owned(), "coda".to_owned()],
            store: Store::new(),
            reconnect_jitter_seed: 7,
            local_hostname: LAPTOP.to_owned(),
            home: None,
        },
        CLOCK,
    );
    assert_eq!(app.host_filter, LAPTOP);
    assert_eq!(app.limit, 12);
    assert!(!app.watching);
    let watch = PickerApp::new_watch(
        PickerSetup {
            initial_host: "coda".to_owned(),
            limit: 12,
            discovery_targets: vec!["local".to_owned(), "coda".to_owned()],
            store: Store::new(),
            reconnect_jitter_seed: 7,
            local_hostname: LAPTOP.to_owned(),
            home: None,
        },
        CLOCK,
    );
    assert!(watch.watching);
    assert_eq!(watch.discovery_targets, ["coda"]);
    assert!(watch.initial_targets_remaining.contains("coda"));
}

#[test]
fn the_seed_of_the_jitter_mixes_time_and_process() {
    assert_ne!(
        reconnect_jitter_seed(1_000_000, 1),
        reconnect_jitter_seed(1_000_000, 2)
    );
    assert_ne!(
        reconnect_jitter_seed(1_000_000, 1),
        reconnect_jitter_seed(2_000_000, 1)
    );
}

#[test]
fn hosts_that_ssh_cannot_resolve_are_not_asked() {
    let host = |resolution_error: Option<&str>| SshHost {
        alias: "broken".to_owned(),
        hostname: "broken".to_owned(),
        user: None,
        port: 22,
        source: "test".to_owned(),
        identity_files: Vec::new(),
        connectivity: ConnectivityState::Unknown,
        resolution_error: resolution_error.map(str::to_owned),
    };
    assert_eq!(deduplicate_discovery_targets(vec![]), ["local"]);
    assert_eq!(
        deduplicate_discovery_targets(vec![host(Some("bad option"))]),
        ["local"]
    );
    assert_eq!(
        deduplicate_discovery_targets(vec![host(None)]),
        ["local", "broken"]
    );
}

#[test]
fn only_changed_sessions_are_read_in_detail() {
    let known = session("a", "/fabric", "Known");
    let unseen = session("b", "/fabric", "Unseen");
    let cached = one(
        "a".to_owned(),
        CachedDetail {
            last_interaction: NOW,
            updated: NOW,
            has_message: true,
        },
    );
    let needing = sessions_needing_detail(vec![known, unseen.clone()], &cached);
    assert_eq!(needing, [unseen]);
}
