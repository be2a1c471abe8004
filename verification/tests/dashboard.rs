use rollcall::agents::observed_host;
use rollcall::domain::{Activity, AgentKind, RuntimeOwner, Session, TmuxBinding};
use rollcall::keyed::{StringMap, StringSet};
use rollcall::picker::{
    Clock, DashboardRow, DashboardSection, DashboardSelection, GroupConnectivity, GroupSet,
    InputMode, PickerApp, SectionSet, WEEK_SECONDS,
};
use rollcall::picker::dashboard::{
    activity_is_current, activity_priority, dashboard_section, is_navigable_row, session_matches,
};
use rollcall::reconnect::{FailureClass, HostReconnectState};
use rollcall::store::Store;

const NOW: u64 = 2_000_000_000;
const CLOCK: Clock = Clock {
    unix_seconds: NOW,
    monotonic_millis: 1_000_000,
};
const LAPTOP: &str = "laptop";

fn session(id: &str, cwd: &str, title: &str) -> Session {
    Session {
        id: format!("topo:codex:{id}"),
        host: "topo".to_owned(),
        agent: AgentKind::Codex,
        native_session_id: id.to_owned(),
        title: title.to_owned(),
        cwd: cwd.to_owned(),
        source: "cli".to_owned(),
        activity: Activity::Completed,
        last_message: "The implementation is ready.".to_owned(),
        last_interaction_unix_seconds: NOW,
        updated_unix_seconds: NOW,
        runtime: RuntimeOwner::TmuxFrontend,
        tmux: Some(TmuxBinding {
            session: "agents".to_owned(),
            pane: "%3".to_owned(),
        }),
    }
}

fn set(keys: &[&str]) -> StringSet {
    let mut set = StringSet::new();
    for key in keys {
        set.insert((*key).to_owned());
    }
    set
}

fn app_with_sessions(active: Vec<Session>, settled: Vec<Session>) -> PickerApp {
    let mut fresh_ids = StringSet::new();
    for session in active.iter().chain(&settled) {
        fresh_ids.insert(session.id.clone());
    }
    let mut reconnect = StringMap::new();
    reconnect.insert(
        "local".to_owned(),
        HostReconnectState::new(CLOCK.monotonic_millis),
    );
    let mut app = PickerApp {
        store: Store::new(),
        active,
        settled,
        rows: Vec::new(),
        query: String::new(),
        selected_row: 0,
        input_mode: InputMode::Browse,
        expanded_sections: SectionSet {
            current: true,
            last_day: true,
            last_week: true,
            archive: false,
        },
        collapsed_groups: GroupSet::new(),
        show_details: false,
        host_filter: "all".to_owned(),
        host_choices: vec!["all".to_owned(), "topo".to_owned()],
        host_selected: 0,
        discovery_targets: vec!["local".to_owned()],
        pending_hosts: StringSet::new(),
        reachable_hosts: set(&["local"]),
        enriching_hosts: StringSet::new(),
        host_errors: StringMap::new(),
        fresh_ids,
        unread_ids: StringSet::new(),
        watching: false,
        initial_targets_remaining: StringSet::new(),
        refresh_generation: 0,
        reconnect,
        reconnect_jitter_seed: 0,
        activity_pending: StringSet::new(),
        last_activity_poll: StringMap::new(),
        limit: 50,
        status: None,
        notice: None,
        preview_request_id: 0,
        preview: None,
        effects: Vec::new(),
        local_hostname: LAPTOP.to_owned(),
        home: None,
    };
    app.rebuild_rows(NOW);
    app
}

#[test]
fn dashboard_search_matches_session_metadata_status_and_last_message() {
    let session = session("019f", "/home/fin/projects/rollcall", "Rollcall picker");
    assert!(session_matches(&session, "picker"));
    assert!(session_matches(&session, "implementation is ready"));
    assert!(session_matches(&session, "completed"));
    assert!(session_matches(&session, "codex"));
    assert!(session_matches(&session, "projects/rollcall"));
    assert!(session_matches(&session, "agents"));
    assert!(session_matches(&session, "019f"));
    assert!(!session_matches(&session, "coda"));
}

#[test]
fn dashboard_sessions_are_nested_beneath_directory_and_host_groups() {
    let mut other_host = session("019d", "/tmp/project", "Three");
    other_host.host = "coda".to_owned();
    other_host.id = "coda:codex:019d".to_owned();
    let app = app_with_sessions(
        vec![
            session("019f", "/fabric", "One"),
            session("019e", "/fabric", "Two"),
            other_host,
        ],
        Vec::new(),
    );

    assert_eq!(
        app.rows
            .iter()
            .filter(|row| matches!(row, DashboardRow::Group { .. }))
            .count(),
        2
    );
    assert_eq!(
        app.rows
            .iter()
            .filter(|row| matches!(row, DashboardRow::Host { .. }))
            .count(),
        2
    );
    let host_row = app
        .rows
        .iter()
        .position(|row| matches!(row, DashboardRow::Host { .. }))
        .expect("host group should be rendered");
    let project_row = app
        .rows
        .iter()
        .position(|row| matches!(row, DashboardRow::Group { .. }))
        .expect("project group should be rendered");
    assert!(host_row < project_row);
    assert!(matches!(
        app.rows.get(project_row + 1),
        Some(DashboardRow::Session(_))
    ));
    assert_eq!(app.visible_session_count(), 3);
}

#[test]
fn different_activity_and_recency_share_one_host_and_project() {
    let mut working = session("working", "/project", "Working");
    working.activity = Activity::Working;
    let today = session("today", "/project", "Today");
    let mut week = session("week", "/project", "Week");
    week.last_interaction_unix_seconds = NOW - 172_800;
    let app = app_with_sessions(vec![working, today, week], Vec::new());
    assert_eq!(
        app.rows
            .iter()
            .filter(|row| matches!(row, DashboardRow::Host { .. }))
            .count(),
        1
    );
    assert_eq!(
        app.rows
            .iter()
            .filter(|row| matches!(row, DashboardRow::Group { .. }))
            .count(),
        1
    );
    assert_eq!(app.visible_session_count(), 3);
}

#[test]
fn dashboard_sections_prioritize_live_activity_then_recency() {
    let now = 2_000_000;
    let mut current = session("current", "/fabric", "Current");
    current.activity = Activity::Working;
    let mut today = session("today", "/fabric", "Today");
    today.last_interaction_unix_seconds = now - 60;
    let mut week = session("week", "/fabric", "Week");
    week.last_interaction_unix_seconds = now - 86_401;
    let archived = session("archived", "/fabric", "Archive");

    assert_eq!(
        dashboard_section(&current, false, false, now),
        DashboardSection::Current
    );
    assert_eq!(
        dashboard_section(&today, false, false, now),
        DashboardSection::LastDay
    );
    assert_eq!(
        dashboard_section(&week, false, false, now),
        DashboardSection::LastWeek
    );
    assert_eq!(
        dashboard_section(&archived, true, false, now),
        DashboardSection::Archive
    );

    let mut old = session("old", "/fabric", "Old");
    old.last_interaction_unix_seconds = now - WEEK_SECONDS - 1;
    assert_eq!(
        dashboard_section(&old, false, false, now),
        DashboardSection::Archive
    );
}

#[test]
fn archive_is_present_but_collapsed_by_default() {
    let app = app_with_sessions(Vec::new(), vec![session("019f", "/fabric", "Archive")]);

    assert_eq!(app.visible_session_count(), 0);
    assert!(app.rows.iter().any(|row| matches!(
        row,
        DashboardRow::Section {
            section: DashboardSection::Archive,
            expanded: false,
            count: 1,
        }
    )));
}

#[test]
fn archive_section_can_be_expanded_without_changing_other_buckets() {
    let mut app = app_with_sessions(
        vec![session("019e", "/fabric", "Recent")],
        vec![session("019f", "/fabric", "Archive")],
    );
    app.expanded_sections.insert(DashboardSection::Archive);
    app.rebuild_rows(NOW);

    assert_eq!(app.visible_session_count(), 2);
    assert_eq!(
        app.selected_session().map(|session| session.title.as_str()),
        Some("Recent")
    );
}

#[test]
fn dashboard_progressive_refresh_keeps_the_same_session_selected_after_reordering() {
    let now = NOW;
    let mut first = session("019f", "/fabric", "First");
    first.last_interaction_unix_seconds = now;
    let mut second = session("019e", "/fabric", "Second");
    second.last_interaction_unix_seconds = now.saturating_sub(1);
    let mut app = app_with_sessions(vec![first, second], Vec::new());
    app.select_next();
    let selected_id = app
        .selected_session()
        .map(|session| session.id.clone())
        .expect("a session should be selected");

    app.active.reverse();
    app.rebuild_rows_selecting(Some(DashboardSelection::Session(selected_id.clone())), NOW);

    assert_eq!(
        app.selected_session().map(|session| session.id.as_str()),
        Some(selected_id.as_str())
    );
}

#[test]
fn projects_stay_alphabetical_instead_of_jumping_when_activity_changes() {
    let now = NOW;
    let mut completed = session("019f", "/newer", "Completed");
    completed.last_interaction_unix_seconds = now;
    let mut working = session("019e", "/older", "Working");
    working.activity = Activity::Working;
    working.last_interaction_unix_seconds = now - 100;
    let app = app_with_sessions(vec![completed, working], Vec::new());

    assert_eq!(
        app.selected_session().map(|session| session.title.as_str()),
        Some("Completed")
    );
}

#[test]
fn unread_markers_do_not_reorder_project_groups() {
    let completed = session("019f", "/zzz-completed", "Unread completion");
    let mut working = session("019e", "/aaa-working", "Working");
    working.activity = Activity::Working;
    let mut app = app_with_sessions(vec![working, completed], Vec::new());
    app.unread_ids.insert("topo:codex:019f".to_owned());
    app.rebuild_rows_selecting(None, NOW);

    assert_eq!(
        app.selected_session().map(|session| session.title.as_str()),
        Some("Working")
    );
}

#[test]
fn local_sessions_precede_newer_working_remote_sessions() {
    let local = observed_host("local", LAPTOP);
    let mut local_session = session("local", "/project", "Local older session");
    local_session.host = local.clone();
    local_session.last_interaction_unix_seconds = NOW - 172_800;
    let mut remote = session("remote", "/project", "Remote working session");
    remote.host = "aaa-remote".to_owned();
    remote.activity = Activity::Working;
    let mut app = app_with_sessions(vec![remote, local_session], Vec::new());
    assert!(matches!(&app.rows[0], DashboardRow::Host { host, .. } if host == &local));
    assert_eq!(app.selected_session().unwrap().title, "Local older session");
    app.rebuild_host_choices();
    assert_eq!(&app.host_choices[..2], &["all".to_owned(), local]);
}

#[test]
fn recent_counts_include_live_unread_and_archived_sessions_and_respect_search() {
    let mut working = session("working", "/project", "Recent working");
    working.activity = Activity::Working;
    let unread = session("unread", "/project", "Recent unread");
    let archived = session("archived", "/project", "Recent archived");
    let mut week = session("week", "/project", "Earlier this week");
    week.last_interaction_unix_seconds = NOW - 172_800;
    week.runtime = RuntimeOwner::Resumable;
    let mut app = app_with_sessions(vec![working, unread, week], vec![archived]);
    app.unread_ids.insert("topo:codex:unread".to_owned());
    let counts = app.section_counts(NOW);
    assert_eq!(counts.get(DashboardSection::LastDay), 3);
    assert_eq!(counts.get(DashboardSection::LastWeek), 4);
    assert_eq!(counts.get(DashboardSection::Current), 3);
    assert_eq!(counts.get(DashboardSection::Archive), 1);
    app.query = "recent working".to_owned();
    assert_eq!(app.section_counts(NOW).get(DashboardSection::LastDay), 1);
    app.host_filter = "no-such-host".to_owned();
    assert!(app.section_counts(NOW).is_empty());
}

#[test]
fn equal_recency_has_a_stable_id_tiebreaker() {
    let first = session("a", "/project", "First");
    let mut second = session("b", "/project", "Second");
    second.last_interaction_unix_seconds = first.last_interaction_unix_seconds;
    let mut app = app_with_sessions(vec![second, first], Vec::new());
    assert_eq!(app.selected_session().unwrap().title, "First");
    app.active.reverse();
    app.rebuild_rows_selecting(None, NOW);
    assert_eq!(app.selected_session().unwrap().title, "First");
}

#[test]
fn a_search_shows_every_match_once() {
    let mut app = app_with_sessions(
        vec![
            session("a", "/one", "Needle one"),
            session("b", "/two", "Other"),
        ],
        vec![session("c", "/one", "Needle two")],
    );
    app.rebuild_rows_for("needle", None, NOW);
    let shown: Vec<&str> = app
        .rows
        .iter()
        .filter_map(|row| match row {
            DashboardRow::Session(found) => Some(app.session_for_ref(*found).title.as_str()),
            _ => None,
        })
        .collect();
    assert_eq!(shown, ["Needle one", "Needle two"]);
}

#[test]
fn the_cursor_moves_over_rows_that_can_be_chosen() {
    let mut app = app_with_sessions(
        vec![session("a", "/one", "One"), session("b", "/two", "Two")],
        Vec::new(),
    );
    app.select_first();
    assert_eq!(app.selected_session().unwrap().title, "One");
    assert!(app.rows.iter().all(is_navigable_row));
    for _ in 0..app.rows.len() {
        app.select_previous();
    }
    assert_eq!(app.selected_row, 0);
    assert!(app.selected_group_key().is_some());
    app.select_last();
    assert_eq!(app.selected_session().unwrap().title, "Two");
    app.select_next();
    assert_eq!(app.selected_section(), Some(DashboardSection::Archive));
    let last = app.selected_row;
    app.select_next();
    assert_eq!(app.selected_row, last);
    assert!(app.selected_selection().is_some());
}

#[test]
fn host_choices_start_with_all_and_the_local_host() {
    let mut app = app_with_sessions(vec![session("a", "/one", "One")], Vec::new());
    app.discovery_targets = vec!["local".to_owned(), "coda".to_owned()];
    app.host_filter = "gone".to_owned();
    app.rebuild_host_choices();
    assert_eq!(app.host_choices, ["all", "laptop", "coda", "topo"]);
    assert_eq!(app.host_filter, "all");
    assert_eq!(
        app.target_for_observed_host("laptop").map(String::as_str),
        Some("local")
    );
    assert_eq!(app.target_for_observed_host("topo"), None);
}

#[test]
fn a_group_tells_how_its_host_can_be_reached() {
    let mut app = app_with_sessions(vec![session("a", "/one", "One")], Vec::new());
    let millis = CLOCK.monotonic_millis;
    assert_eq!(
        app.group_connectivity("topo", false, millis),
        GroupConnectivity::Cached
    );
    let mut state = HostReconnectState::new(millis);
    state.begin_attempt();
    state.failed_with_hash(millis, true, FailureClass::Transient, 20);
    app.reconnect = StringMap::new();
    app.reconnect.insert("local".to_owned(), state);
    assert_eq!(
        app.group_connectivity("laptop", false, millis),
        GroupConnectivity::Offline(Some(2))
    );
}

#[test]
fn live_work_comes_before_attention_and_rest() {
    assert!(activity_is_current(Activity::Working));
    assert!(activity_is_current(Activity::WaitingApproval));
    assert!(!activity_is_current(Activity::Completed));
    assert!(activity_priority(Activity::Working) < activity_priority(Activity::Completed));
}
