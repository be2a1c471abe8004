use rollcall::domain::{Activity, AgentKind, RuntimeOwner, Session, TmuxBinding};
use rollcall::keyed::{StringMap, StringSet};
use rollcall::picker::{
    Clock, GroupConnectivity, GroupSet, InputMode, NOTICE_DURATION, PickerApp, PreviewContent,
    RefreshEvent, SectionSet,
};
use rollcall::picker::view::overlays::help_lines;
use rollcall::picker::view::rows::{Columns, activity_style, connectivity_label, fit, working_pulse};
use rollcall::picker::view::text::{
    cached_preview, cached_preview_source, compact_home, display_directory, format_age,
    preview_window, truncate_with_ellipsis, wrap_preview_body,
};
use rollcall::picker::view::theme::Theme;
use rollcall::reconnect::HostReconnectState;
use rollcall::store::Store;
use rollcall::style::{Color, StyledSpan};

const NOW: u64 = 2_000_000_000;
const CLOCK: Clock = Clock {
    unix_seconds: NOW,
    monotonic_millis: 1_000_000,
};
const LAPTOP: &str = "laptop";

fn session(id: &str, cwd: &str, title: &str) -> Session {
    Session {
        id: format!("topo:codex:{id}"),
        host: "topo".to_owned(),
        agent: AgentKind::Codex,
        native_session_id: id.to_owned(),
        title: title.to_owned(),
        cwd: cwd.to_owned(),
        source: "cli".to_owned(),
        activity: Activity::Completed,
        last_message: "The implementation is ready.".to_owned(),
        last_interaction_unix_seconds: NOW,
        updated_unix_seconds: NOW,
        runtime: RuntimeOwner::TmuxFrontend,
        tmux: Some(TmuxBinding {
            session: "agents".to_owned(),
            pane: "%3".to_owned(),
        }),
    }
}

fn set(keys: &[&str]) -> StringSet {
    let mut set = StringSet::new();
    for key in keys {
        set.insert((*key).to_owned());
    }
    set
}

fn app_with_sessions(active: Vec<Session>, settled: Vec<Session>) -> PickerApp {
    let mut fresh_ids = StringSet::new();
    for session in active.iter().chain(&settled) {
        fresh_ids.insert(session.id.clone());
    }
    let mut reconnect = StringMap::new();
    reconnect.insert(
        "local".to_owned(),
        HostReconnectState::new(CLOCK.monotonic_millis),
    );
    let mut app = PickerApp {
        store: Store::new(),
        active,
        settled,
        rows: Vec::new(),
        query: String::new(),
        selected_row: 0,
        input_mode: InputMode::Browse,
        expanded_sections: SectionSet {
            current: true,
            last_day: true,
            last_week: true,
            archive: false,
        },
        collapsed_groups: GroupSet::new(),
        show_details: false,
        host_filter: "all".to_owned(),
        host_choices: vec!["all".to_owned(), "topo".to_owned()],
        host_selected: 0,
        discovery_targets: vec!["local".to_owned()],
        pending_hosts: StringSet::new(),
        reachable_hosts: set(&["local"]),
        enriching_hosts: StringSet::new(),
        host_errors: StringMap::new(),
        fresh_ids,
        unread_ids: StringSet::new(),
        watching: false,
        initial_targets_remaining: StringSet::new(),
        refresh_generation: 0,
        reconnect,
        reconnect_jitter_seed: 0,
        activity_pending: StringSet::new(),
        last_activity_poll: StringMap::new(),
        limit: 50,
        status: None,
        notice: None,
        preview_request_id: 0,
        preview: None,
        effects: Vec::new(),
        local_hostname: LAPTOP.to_owned(),
        home: None,
    };
    app.rebuild_rows(NOW);
    app
}

fn text(spans: &[StyledSpan]) -> String {
    spans.iter().map(|span| span.text.as_str()).collect()
}

#[test]
fn view_picker_ages_are_compact() {
    let now = NOW;
    assert_eq!(format_age(now.saturating_sub(5), now), "5s");
    assert_eq!(format_age(now.saturating_sub(120), now), "2m");
    assert_eq!(format_age(now.saturating_sub(7_200), now), "2h");
    assert_eq!(format_age(now.saturating_sub(172_800), now), "2d");
}

#[test]
fn view_preview_window_starts_at_the_newest_lines_and_scrolls_toward_history() {
    let lines = wrap_preview_body("one\ntwo\nthree\nfour\nfive", 20);

    assert_eq!(preview_window(&lines, 3, 0), "three\nfour\nfive");
    assert_eq!(preview_window(&lines, 3, 1), "two\nthree\nfour");
    assert_eq!(preview_window(&lines, 3, usize::MAX), "one\ntwo\nthree");
    assert_eq!(wrap_preview_body("abcdefgh", 3), vec!["abc", "def", "gh"]);
}

#[test]
fn view_dense_rows_truncate_with_an_ellipsis() {
    assert_eq!(truncate_with_ellipsis("abcdef", 4), "abc…");
    assert_eq!(truncate_with_ellipsis("a", 1), "a");
    assert_eq!(truncate_with_ellipsis("ab", 1), "…");
}

#[test]
fn session_action_feedback_survives_refresh_and_then_expires() {
    let candidate = session("feedback", "/project", "Feedback target");
    let mut app = app_with_sessions(vec![candidate.clone()], Vec::new());
    app.store.record(&app.active.clone(), NOW as i64);
    let footer = |app: &PickerApp| text(&app.footer_line(Theme::Terminal));

    for archived in [Some(true), Some(false), None] {
        match archived {
            Some(archived) => app
                .set_archived(&candidate.id, archived, CLOCK)
                .expect("archive should change"),
            None => app.acknowledge_session(&candidate.id, true, CLOCK),
        }
        assert!(footer(&app).contains(&candidate.title));
        app.apply_refresh_event(
            RefreshEvent::Detailed {
                generation: app.refresh_generation,
                target: candidate.host.clone(),
                sessions: vec![candidate.clone()],
            },
            CLOCK,
        );
        assert!(
            footer(&app).contains(&candidate.title),
            "refresh must not erase action feedback"
        );

        app.notice.as_mut().expect("confirmation should expire").1 =
            CLOCK.monotonic_millis - NOTICE_DURATION;
        app.expire_notice(CLOCK);
        assert!(
            !footer(&app).contains(&candidate.title),
            "expired feedback must yield to current status"
        );
    }
}

#[test]
fn table_text_is_single_line_and_fits_wide_characters() {
    assert_eq!(fit("hello\nworld", 20), "hello world");
    assert_eq!(fit("你好世界", 5), "你好…");
    assert_eq!(fit("abcdef", 4), "abc…");
    assert_eq!(fit("hello", 0), "");
}

#[test]
fn terminal_is_default_and_unknown_themes_are_rejected() {
    assert_eq!(Theme::parse(None).unwrap(), Theme::Terminal);
    assert_eq!(Theme::parse(Some("")).unwrap(), Theme::Terminal);
    assert_eq!(
        Theme::parse(Some(" EVERFOREST ")).unwrap(),
        Theme::Everforest
    );
    assert_eq!(Theme::parse(Some("tmux")).unwrap(), Theme::Tmux);
    assert!(Theme::parse(Some("everforrest")).is_err());
}

#[test]
fn terminal_styles_preserve_defaults_and_use_palette_accents() {
    let theme = Theme::Terminal;
    assert_eq!(theme.base_style().fg, Some(Color::Reset));
    assert_eq!(theme.base_style().bg, Some(Color::Reset));
    assert!(theme.muted_style().dim);
    assert!(theme.selection_style().reversed);
    assert!(theme.selection_style().never_dim);
    assert_eq!(theme.palette().green, Color::Green);
    assert_eq!(theme.palette().red, Color::Red);
}

#[test]
fn everforest_keeps_its_explicit_colors_and_selection_background() {
    let theme = Theme::Everforest;
    assert_eq!(theme.base_style().bg, Some(Color::Rgb(0x2d, 0x35, 0x3b)));
    assert_eq!(
        theme.selection_style().bg,
        Some(Color::Rgb(0x42, 0x50, 0x47))
    );
    assert!(!theme.selection_style().reversed);
    assert!(!theme.muted_style().dim);
}

#[test]
fn an_unknown_theme_is_named() {
    let error = Theme::parse(Some("typo")).expect_err("there is no such theme");
    assert!(error
        .message()
        .contains("ROLLCALL_THEME must be terminal, everforest, or tmux"));
    for theme in [Theme::Terminal, Theme::Everforest, Theme::Tmux] {
        assert_eq!(Theme::parse(Some(theme.name())), Ok(theme));
    }
}

#[test]
fn rows_hold_the_agent_the_activity_the_age_and_the_message() {
    let mut first = session("table-a", "/project", "Alpha title");
    first.activity = Activity::Working;
    first.last_message = "First message".to_owned();
    let mut second = session("table-b", "/project", "Wide 你好世界 title");
    second.agent = AgentKind::Pi;
    second.activity = Activity::WaitingApproval;
    second.last_message = "Second\nmessage".to_owned();
    let app = app_with_sessions(vec![first, second], Vec::new());
    let columns = Columns::new(120);
    let header = columns.header(Theme::Terminal);
    let labels: Vec<String> = header.cells.iter().map(|cell| text(cell)).collect();
    let column = |label: &str| {
        labels
            .iter()
            .position(|found| found == label)
            .unwrap_or_else(|| panic!("no column {label} in {labels:?}"))
    };
    let rows = app.table_rows(&columns, Theme::Terminal, CLOCK, 0);
    assert_eq!(rows.len(), app.rows.len());
    for (title, agent, status, preview) in [
        ("Alpha", "codex", "working", "First message"),
        ("Wide", "pi", "approval", "Second message"),
    ] {
        let row = rows
            .iter()
            .find(|row| text(&row.cells[0]).contains(title))
            .expect("the session has a row");
        assert_eq!(row.cells.len(), header.cells.len());
        assert_eq!(text(&row.cells[column("HARNESS")]).trim(), agent);
        assert_eq!(text(&row.cells[column("ACTIVITY")]).trim(), status);
        assert!(!text(&row.cells[column("UPDATED")]).trim().is_empty());
        assert!(text(&row.cells[column("LAST MESSAGE")]).starts_with(preview));
    }
    for width in [80, 60, 24, 8] {
        let columns = Columns::new(width);
        assert_eq!(
            columns.widths().len(),
            columns.header(Theme::Terminal).cells.len()
        );
    }
}

#[test]
fn the_terminal_theme_paints_no_background() {
    let mut candidate = session("theme", "/project", "Readable terminal title");
    candidate.runtime = RuntimeOwner::Resumable;
    candidate.tmux = None;
    let app = app_with_sessions(vec![candidate], Vec::new());
    let plain = |color: Option<Color>| {
        !matches!(color, Some(Color::Rgb(..)) | Some(Color::Indexed(_)))
    };
    let mut spans = app.header_title(Theme::Terminal, CLOCK);
    spans.extend(app.header_subtitle(Theme::Terminal));
    spans.extend(app.footer_line(Theme::Terminal));
    spans.extend(help_lines(Theme::Terminal));
    spans.extend(
        app.detail_lines(Theme::Terminal, 100, CLOCK, 0)
            .into_iter()
            .flatten(),
    );
    for row in app.table_rows(&Columns::new(100), Theme::Terminal, CLOCK, 0) {
        spans.extend(row.cells.into_iter().flatten());
    }
    for span in spans {
        assert!(matches!(span.style.bg, None | Some(Color::Reset)));
        assert!(plain(span.style.fg), "{:?}", span);
    }
}

#[test]
fn the_header_counts_sessions_and_hosts() {
    let app = app_with_sessions(
        vec![session("a", "/project", "One")],
        vec![session("b", "/project", "Two")],
    );
    let title = text(&app.header_title(Theme::Terminal, CLOCK));
    assert!(title.contains("Currently active 2"), "{title}");
    assert!(title.contains("24h 2"), "{title}");
    assert!(title.contains("7d 2"), "{title}");
    assert!(title.contains("Archive 1"), "{title}");
    let subtitle = text(&app.header_subtitle(Theme::Terminal));
    assert!(subtitle.contains("Hosts: 1 online"), "{subtitle}");
}

#[test]
fn details_are_shown_where_there_is_room() {
    let mut app = app_with_sessions(vec![session("a", "/project", "One")], Vec::new());
    assert!(!app.details_shown(40));
    app.show_details = true;
    assert!(app.details_shown(40));
    assert!(!app.details_shown(4));
    let details: String = app
        .detail_lines(Theme::Terminal, 100, CLOCK, 0)
        .iter()
        .map(|line| text(line) + "\n")
        .collect();
    assert!(details.contains("One"), "{details}");
    assert!(details.contains("/project"), "{details}");
}

#[test]
fn the_help_names_the_keys() {
    let lines = help_lines(Theme::Everforest);
    assert_eq!(lines.len(), 15);
    assert!(lines[0].text.contains("j/k or arrows"));
    assert!(lines[13].style.bold);
    assert_eq!(
        lines.iter().filter(|line| line.style.bold).count(),
        1
    );
}

#[test]
fn a_preview_shows_where_its_text_comes_from() {
    let mut candidate = session("a", "/project", "A long enough title");
    candidate.runtime = RuntimeOwner::Resumable;
    candidate.tmux = None;
    let mut app = app_with_sessions(vec![candidate], Vec::new());
    assert!(app.preview_panel(Theme::Terminal, 20, 30, 5, 0).is_none());
    app.start_preview();
    let panel = app
        .preview_panel(Theme::Terminal, 8, 30, 5, 0)
        .expect("a preview is open");
    assert_eq!(panel.title, "A long…");
    assert_eq!(panel.origin, "topo · cached response");
    assert!(panel.body.contains("The implementation is ready."));
    assert_eq!(panel.notice, None);

    let preview = app.preview.as_mut().expect("a preview is open");
    preview.content = PreviewContent::Failed {
        error: "gone".to_owned(),
        fallback: "old".to_owned(),
    };
    let panel = app
        .preview_panel(Theme::Terminal, 8, 30, 5, 0)
        .expect("a preview is open");
    assert_eq!(panel.origin, "topo · cached response · live capture failed");
    assert_eq!(panel.body, "old\n\nCapture error: gone");

    let preview = app.preview.as_mut().expect("a preview is open");
    preview.content = PreviewContent::Loading;
    let panel = app
        .preview_panel(Theme::Terminal, 8, 30, 5, 0)
        .expect("a preview is open");
    assert_eq!(panel.origin, "topo · capturing live tmux pane");
    assert!(panel.body.ends_with(" Loading preview…"));
    assert_eq!(panel.style.fg, Some(Theme::Terminal.palette().blue));
}

#[test]
fn the_list_of_hosts_counts_their_sessions() {
    let app = app_with_sessions(
        vec![session("a", "/project", "One")],
        vec![session("b", "/project", "Two")],
    );
    let lines = app.host_choice_lines();
    assert_eq!(lines.len(), 2);
    assert_eq!(
        lines[0],
        format!("{:<24} 1 active · 1 settled  current", "all")
    );
    assert_eq!(lines[1], format!("{:<24} 1 active · 1 settled", "topo"));
}

#[test]
fn hosts_say_how_they_can_be_reached() {
    let label = |connectivity| connectivity_label(connectivity, Theme::Terminal).text;
    let labels = [
        label(GroupConnectivity::Online),
        label(GroupConnectivity::Checking),
        label(GroupConnectivity::Offline(Some(12_000))),
        label(GroupConnectivity::Blocked),
        label(GroupConnectivity::Cached),
    ];
    for (i, label) in labels.iter().enumerate() {
        assert!(labels[..i].iter().all(|other| other != label));
    }
    assert_eq!(labels[2], label(GroupConnectivity::Offline(None)));
}

#[test]
fn directories_below_the_home_are_shortened() {
    let home = Some("/home/fin".to_owned());
    assert_eq!(compact_home("/home/fin/projects", &home), "~/projects");
    assert_eq!(compact_home("/home/finley", &home), "/home/finley");
    assert_eq!(compact_home("/home/fin", &None), "/home/fin");
    assert_eq!(display_directory("/home/fin/projects/rollcall", &home), "rollcall");
    assert_eq!(display_directory("/", &home), "/");
}

#[test]
fn a_cached_preview_falls_back_where_there_is_no_message() {
    let mut candidate = session("a", "/project", "One");
    assert_eq!(
        cached_preview(&candidate, &None),
        "One\n\nThe implementation is ready.\n\n/project / topo"
    );
    candidate.runtime = RuntimeOwner::Resumable;
    assert_eq!(cached_preview_source(&candidate), "cached response");
    candidate.last_message = String::new();
    assert!(cached_preview(&candidate, &None).contains("No cached agent response is available."));
}

#[test]
fn work_in_progress_pulses() {
    let (first, _) = working_pulse(0, Theme::Terminal);
    assert!((0..2_000u64)
        .step_by(50)
        .any(|millis| working_pulse(millis, Theme::Terminal).0 != first));
    let (_, _, working) = activity_style(Activity::Working, 0, Theme::Terminal);
    assert_eq!(working, "working");
}
