use rollcall::cli::{
    activity_label, format_age, has_every_term, history_lines, history_matches, host_lines,
    is_tmux_target, list_limit, render_target, resolution_warnings, resolve_command,
    runtime_label, search_terms, select_history, session_lines, tmux_lines, truncate, Command,
    DEFAULT_SESSION_LIMIT,
};
use rollcall::domain::{Activity, AgentKind, RuntimeOwner, Session};
use rollcall::hosts::{ConnectivityState, SshHost};
use rollcall::store::HistoryEntry;
use rollcall::tmux::TmuxSession;

fn session(id: &str, title: &str) -> Session {
    Session {
        id: format!("topo:codex:{id}"),
        host: "topo".to_owned(),
        agent: AgentKind::Codex,
        native_session_id: id.to_owned(),
        title: title.to_owned(),
        cwd: "/work".to_owned(),
        source: "cli".to_owned(),
        activity: Activity::Completed,
        last_message: String::new(),
        last_interaction_unix_seconds: 100,
        updated_unix_seconds: 100,
        runtime: RuntimeOwner::Resumable,
        tmux: None,
    }
}

fn entry(id: &str, title: &str, settled: bool) -> HistoryEntry {
    HistoryEntry {
        session: session(id, title),
        settled,
        unread: false,
        notification_kind: None,
        notification_at_unix_seconds: None,
        settled_at_unix_seconds: None,
        settle_reason: None,
        last_seen_unix_seconds: 200,
    }
}

fn host(alias: &str, user: Option<&str>, port: u16) -> SshHost {
    SshHost {
        alias: alias.to_owned(),
        hostname: format!("{alias}.example"),
        user: user.map(str::to_owned),
        port,
        source: "/etc/ssh".to_owned(),
        identity_files: vec![],
        connectivity: ConnectivityState::Unknown,
        resolution_error: None,
    }
}

#[test]
fn attach_dispatch_distinguishes_raw_tmux_and_agent_ids() {
    assert!(is_tmux_target("agents"));
    assert!(is_tmux_target("topo:tmux:agents"));
    assert!(!is_tmux_target("topo:codex:019f"));
    assert!(!is_tmux_target("topo:unknown:019f"));
}

#[test]
fn codex_runtime_labels_distinguish_native_loading_state() {
    assert_eq!(runtime_label(RuntimeOwner::Resumable), "resumable");
    assert_eq!(runtime_label(RuntimeOwner::SharedBackend), "backend");
    assert_eq!(runtime_label(RuntimeOwner::ExternalFrontend), "external");
    assert_eq!(runtime_label(RuntimeOwner::TmuxFrontend), "tmux");
}

#[test]
fn codex_activity_labels_are_compact() {
    assert_eq!(activity_label(Activity::Working), "working");
    assert_eq!(activity_label(Activity::WaitingApproval), "approval");
    assert_eq!(activity_label(Activity::WaitingInput), "input");
    assert_eq!(activity_label(Activity::Completed), "completed");
}

#[test]
fn table_values_are_truncated_by_characters() {
    assert_eq!(truncate("hello", 5), "hello");
    assert_eq!(truncate("hellos", 5), "hello…");
    assert_eq!(truncate("你好世界", 3), "你好世…");
}

#[test]
fn age_format_uses_compact_units() {
    let now: u64 = 1_800_000_000;

    assert_eq!(format_age(now.saturating_sub(5), now), "5s ago");
    assert_eq!(format_age(now.saturating_sub(120), now), "2m ago");
    assert_eq!(format_age(now.saturating_sub(7_200), now), "2h ago");
    assert_eq!(format_age(now.saturating_sub(172_800), now), "2d ago");
}

#[test]
fn history_search_matches_all_terms_across_cached_metadata() {
    let entry = HistoryEntry {
        session: Session {
            id: "topo:codex:019f".to_owned(),
            host: "topo".to_owned(),
            agent: AgentKind::Codex,
            native_session_id: "019f".to_owned(),
            title: "Rollcall picker".to_owned(),
            cwd: "/home/fin/projects/rollcall".to_owned(),
            source: "cli".to_owned(),
            activity: Activity::Completed,
            last_message: "Ownership boundary is ready.".to_owned(),
            last_interaction_unix_seconds: 100,
            updated_unix_seconds: 100,
            runtime: RuntimeOwner::Resumable,
            tmux: None,
        },
        settled: true,
        unread: false,
        notification_kind: None,
        notification_at_unix_seconds: None,
        settled_at_unix_seconds: Some(200),
        settle_reason: Some("manual".to_owned()),
        last_seen_unix_seconds: 200,
    };

    assert!(history_matches(
        &entry,
        Some("topo"),
        Some("rollcall ownership settled")
    ));
    assert!(!history_matches(&entry, Some("coda"), None));
    assert!(!history_matches(&entry, None, Some("rollcall missing")));
}

#[test]
fn the_default_command_follows_the_terminal() {
    assert!(matches!(
        resolve_command(None, false, true),
        Command::Pick { host, limit } if host == "all" && limit == DEFAULT_SESSION_LIMIT
    ));
    assert!(matches!(
        resolve_command(None, false, false),
        Command::List { host, limit: None, all: false } if host == "local"
    ));
    assert!(matches!(
        resolve_command(None, true, true),
        Command::List { host, limit: None, all: false } if host == "local"
    ));
    assert!(matches!(
        resolve_command(
            Some(Command::Attach {
                session: "topo:codex:019f".to_owned()
            }),
            false,
            true
        ),
        Command::Attach { session } if session == "topo:codex:019f"
    ));
}

#[test]
fn lists_are_limited_unless_everything_is_asked_for() {
    assert_eq!(list_limit(None, false), Some(DEFAULT_SESSION_LIMIT));
    assert_eq!(list_limit(Some(3), false), Some(3));
    assert_eq!(list_limit(None, true), None);
}

#[test]
fn more_words_narrow_the_search() {
    let terms = search_terms("  Rollcall  PICKER ");
    assert_eq!(terms, ["rollcall", "picker"]);
    assert!(has_every_term("the rollcall picker", &terms));
    assert!(!has_every_term("the rollcall", &terms));
    assert!(has_every_term("anything", &vec![]));
}

#[test]
fn history_is_filtered_before_it_is_limited() {
    let history = vec![
        entry("a", "first", false),
        entry("b", "second", true),
        entry("c", "second again", false),
    ];
    let found = select_history(history, Some("topo"), Some("second"), Some(1));
    assert_eq!(found.len(), 1);
    assert_eq!(found[0].session.title, "second");
}

#[test]
fn tables_pad_their_columns_and_name_them() {
    let lines = session_lines("topo", &vec![session("a", "short"), session("b", "x")], 160);
    assert_eq!(lines.len(), 3);
    let column = lines[0].find("TITLE").or_else(|| lines[0].find("title"));
    assert!(column.is_some(), "{lines:?}");
    assert!(lines[1].contains("short"));
    assert!(lines[1].contains("1m ago"));

    let empty = session_lines("topo", &vec![], 160);
    assert_eq!(empty.len(), 1);
    assert!(empty[0].contains("topo"));
}

#[test]
fn history_and_inventories_have_tables_too() {
    let lines = history_lines(&vec![entry("a", "kept", true)], 160);
    assert_eq!(lines.len(), 2);
    assert!(lines[1].contains("kept"));
    assert_eq!(history_lines(&vec![], 160).len(), 1);

    let lines = tmux_lines(
        "topo",
        &vec![TmuxSession {
            id: "topo:tmux:fabric".to_owned(),
            host: "topo".to_owned(),
            name: "fabric".to_owned(),
            created_unix_seconds: 1,
            last_activity_unix_seconds: 100,
            attached_clients: 1,
            windows: 3,
        }],
        160,
    );
    assert_eq!(lines.len(), 2);
    assert!(lines[1].contains("fabric"));
    assert_eq!(tmux_lines("topo", &vec![], 160).len(), 1);
}

#[test]
fn hosts_are_shown_with_what_ssh_resolved() {
    assert_eq!(render_target(&host("topo", Some("fin"), 22)), "fin@topo.example:22");
    assert_eq!(render_target(&host("topo", None, 2222)), "topo.example:2222");
    let mut broken = host("coda", None, 22);
    broken.resolution_error = Some("bad option".to_owned());
    let hosts = vec![host("topo", None, 22), broken];
    assert_eq!(host_lines(&hosts).len(), 3);
    let warnings = resolution_warnings(&hosts);
    assert_eq!(warnings.len(), 1);
    assert!(warnings[0].contains("coda"));
    assert!(warnings[0].contains("bad option"));
}
