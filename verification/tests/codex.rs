use rollcall::codex::{
    activity_from_status, adopt_tmux_name, attach, available, compact_message, compact_title,
    correlate_session, desired_tmux_name, deterministic_tmux_name, discover, discover_detailed,
    enrich_session, merge_live_activity, next_page_size, normalized_managed_tmux_name,
    observe_command, observe_live, observed_host, parse_live_observations, read_reply, resume,
    resume_session, slugify_tmux_component, CodexAttachment, CodexError, RawThread,
    RawThreadStatus, ReadTurn, Reply, AVAILABLE_SCRIPT, LIVE_OBSERVATION_SCRIPT,
};
use rollcall::domain::{
    merge_observed_activity, Activity, AgentKind, RuntimeOwner, Session, TmuxBinding,
};
use rollcall::keyed::StringMap;
use rollcall::tmux::CommandOutcome;

fn thread(id: &str, recency: i64) -> Session {
    Session::from(RawThread {
        id: id.to_owned(),
        cwd: "/home/fin/projects/rollcall".to_owned(),
        name: None,
        preview: "do  it".to_owned(),
        recency_at: Some(recency),
        updated_at: recency,
        source: "\"cli\"".to_owned(),
        status: RawThreadStatus::Idle,
    })
}

fn turn(status: &str, items: &[&str]) -> ReadTurn {
    ReadTurn {
        status: status.to_owned(),
        items: items.iter().map(|item| (*item).to_owned()).collect(),
    }
}

#[test]
fn converts_native_threads_to_resumable_sessions() {
    let session = Session::from(RawThread {
        id: "019f0000-0000-7000-8000-000000000001".to_owned(),
        cwd: "/fabric".to_owned(),
        name: Some("Rollcall".to_owned()),
        preview: "ignored".to_owned(),
        recency_at: Some(200),
        updated_at: 250,
        source: "\"cli\"".to_owned(),
        status: RawThreadStatus::NotLoaded,
    });

    assert_eq!(session.title, "Rollcall");
    assert_eq!(session.last_interaction_unix_seconds, 200);
    assert_eq!(session.updated_unix_seconds, 250);
    assert_eq!(session.runtime, RuntimeOwner::Resumable);
}

#[test]
fn compact_titles_collapse_whitespace_and_truncate() {
    assert_eq!(compact_title("one\n two   three", "/tmp"), "one two three");
    assert!(compact_title(&"x".repeat(100), "/tmp").ends_with('…'));
}

#[test]
fn tmux_names_are_deterministic_and_compact() {
    assert_eq!(
        deterministic_tmux_name(
            "/home/fin/projects/Roll Call!",
            "019f9631-f91c-7f20-95f3-019a0ba62241"
        ),
        "rc-roll-call-0ba62241"
    );
    assert_eq!(deterministic_tmux_name("/", "019f"), "rc-session-019f");
}

#[test]
fn pending_shim_sessions_receive_the_deterministic_native_name() {
    assert_eq!(
        normalized_managed_tmux_name(
            "rc-pending-rollcall-123-456",
            "/home/fin/projects/rollcall",
            "019f9631-f91c-7f20-95f3-019a0ba62241"
        ),
        Some("rc-rollcall-0ba62241".to_owned())
    );
    assert_eq!(
        normalized_managed_tmux_name(
            "rc-rollcall-0ba62241",
            "/home/fin/projects/rollcall",
            "019f9631-f91c-7f20-95f3-019a0ba62241"
        ),
        None
    );
}

#[test]
fn live_observations_prefer_an_attachable_tmux_frontend() {
    let observations = parse_live_observations(
        "\
019f\tshared\t\t\tcompleted
019f\texternal\t\t\tworking
019f\ttmux\tagents\t%3\tworking
019e\tshared\t\t\tcompleted
",
    );

    let working = observations.get("019f").expect("observation");
    assert_eq!(working.activity, Activity::Working);
    assert_eq!(working.runtime, RuntimeOwner::TmuxFrontend);
    assert_eq!(
        working
            .tmux
            .as_ref()
            .map(|binding| binding.session.as_str()),
        Some("agents")
    );
    assert_eq!(observations.get("019e").expect("observation").activity, Activity::Completed);
    assert_eq!(observations.get("019e").expect("observation").runtime, RuntimeOwner::SharedBackend);
    assert!(observations.get("019e").expect("observation").tmux.is_none());
}

#[test]
fn live_observations_distinguish_shared_and_external_app_servers() {
    let observations = parse_live_observations(
        "\
019f\tshared\trc-codex-123\t%1\tcompleted
019e\texternal\tt3-code\t%2\tworking
",
    );

    assert_eq!(observations.get("019f").expect("observation").runtime, RuntimeOwner::SharedBackend);
    assert_eq!(observations.get("019e").expect("observation").runtime, RuntimeOwner::ExternalFrontend);
    assert!(observations.get("019f").expect("observation").tmux.is_none());
}

#[test]
fn remote_tui_observation_wins_regardless_of_process_iteration_order() {
    for output in [
        "\
019f\ttmux\trc-project-deadbeef\t%3\tunknown
019f\tshared\t\t\tcompleted
",
        "\
019f\tshared\t\t\tcompleted
019f\ttmux\trc-project-deadbeef\t%3\tunknown
",
    ] {
        let observations = parse_live_observations(output);
        let observation = observations.get("019f").expect("observation");
        assert_eq!(observation.activity, Activity::Completed);
        assert_eq!(observation.runtime, RuntimeOwner::TmuxFrontend);
        assert!(observation.tmux.as_ref().is_some_and(|binding| {
            binding.session == "rc-project-deadbeef" && binding.pane == "%3"
        }));
    }
}

#[test]
fn live_activity_merge_is_order_independent() {
    assert_eq!(
        merge_live_activity(Activity::Unknown, Activity::Completed),
        Activity::Completed
    );
    assert_eq!(
        merge_live_activity(Activity::Completed, Activity::Working),
        Activity::Working
    );
    assert_eq!(
        merge_live_activity(Activity::Working, Activity::Completed),
        Activity::Working
    );
}

#[test]
fn only_the_reserved_socket_and_tmux_namespace_identify_the_shared_backend() {
    assert!(LIVE_OBSERVATION_SCRIPT.contains("--listen "));
    assert!(LIVE_OBSERVATION_SCRIPT.contains("unix://"));
    assert!(LIVE_OBSERVATION_SCRIPT.contains("/rollcall/codex-*.sock"));
    assert!(LIVE_OBSERVATION_SCRIPT.contains("\"$session\" == rc-codex-*"));
    assert!(LIVE_OBSERVATION_SCRIPT.contains("elif [[ \"$is_app_server\" == 1 ]]"));
    assert!(LIVE_OBSERVATION_SCRIPT.contains("BASH_REMATCH[2]"));
}

#[test]
fn live_activity_preserves_attention_until_the_turn_finishes() {
    assert_eq!(
        merge_observed_activity(Activity::WaitingApproval, Activity::Working),
        Activity::WaitingApproval
    );
    assert_eq!(
        merge_observed_activity(Activity::WaitingInput, Activity::Completed),
        Activity::Completed
    );
    assert_eq!(
        merge_observed_activity(Activity::Completed, Activity::Unknown),
        Activity::Completed
    );
}

#[test]
fn threads_without_a_name_take_their_title_from_the_preview() {
    let session = thread("019f", 200);
    assert_eq!(session.title, "do it");
    assert_eq!(session.source, "cli");
    assert_eq!(session.activity, Activity::Completed);
    let negative = Session::from(RawThread {
        id: "019f".to_owned(),
        cwd: "/home/fin".to_owned(),
        name: None,
        preview: String::new(),
        recency_at: None,
        updated_at: -5,
        source: "\"cli\"".to_owned(),
        status: RawThreadStatus::SystemError,
    });
    assert_eq!(negative.title, "/home/fin");
    assert_eq!(negative.last_interaction_unix_seconds, 0);
    assert_eq!(negative.activity, Activity::Failed);
}

#[test]
fn flags_of_a_running_thread_tell_what_it_waits_for() {
    let active = |flags: &[&str]| {
        activity_from_status(&RawThreadStatus::Active {
            active_flags: flags.iter().map(|flag| (*flag).to_owned()).collect(),
        })
    };
    assert_eq!(active(&[]), Activity::Working);
    assert_eq!(active(&["waitingOnApproval"]), Activity::WaitingApproval);
    assert_eq!(active(&["waitingOnUserInput"]), Activity::WaitingInput);
    assert_eq!(
        activity_from_status(&RawThreadStatus::NotLoaded),
        Activity::Completed
    );
}

#[test]
fn pages_are_asked_for_until_the_limit() {
    assert_eq!(next_page_size(None, 500), Some(100));
    assert_eq!(next_page_size(Some(150), 0), Some(100));
    assert_eq!(next_page_size(Some(150), 100), Some(50));
    assert_eq!(next_page_size(Some(150), 150), None);
}

#[test]
fn replies_are_matched_by_their_number() {
    assert_eq!(
        read_reply(3, Some(2), None, Some("{}".to_owned())),
        Reply::Other
    );
    assert_eq!(
        read_reply(3, Some(3), None, Some("{}".to_owned())),
        Reply::Answered("{}".to_owned())
    );
    assert!(matches!(
        read_reply(3, Some(3), Some("refused".to_owned()), None),
        Reply::Refused(CodexError::Protocol(_))
    ));
    assert!(matches!(
        read_reply(3, Some(3), None, None),
        Reply::Refused(CodexError::Protocol(_))
    ));
}

#[test]
fn details_bring_the_last_message_of_the_agent() {
    let mut session = thread("019f", 200);
    enrich_session(
        &mut session,
        &vec![
            turn(
                "completed",
                &["{\"type\":\"agentMessage\",\"text\":\"first\"}"],
            ),
            turn(
                "completed",
                &[
                    "{\"type\":\"agentMessage\",\"text\":\"second\\nline\"}",
                    "{\"type\":\"commandExecution\"}",
                ],
            ),
        ],
    );
    assert_eq!(session.last_message, "second line");
    assert_eq!(compact_message(" a \n b "), "a b");
}

#[test]
fn discovered_threads_belong_to_the_host_that_was_asked() {
    let live = parse_live_observations("a\ttmux\twork\t%3\tworking\n");
    let found = discover(vec![thread("a", 10), thread("b", 20)], "topo", &live);
    assert_eq!(found[0].id, "topo:codex:b");
    assert_eq!(found[0].runtime, RuntimeOwner::Resumable);
    assert_eq!(found[1].id, "topo:codex:a");
    assert_eq!(found[1].activity, Activity::Working);
    assert_eq!(found[1].runtime, RuntimeOwner::TmuxFrontend);

    let mut alone = thread("a", 10);
    correlate_session(&mut alone, "topo", &live);
    assert_eq!(alone, found[1]);
    let detailed = discover_detailed(
        vec![thread("a", 10), thread("b", 20)],
        "topo",
        &live,
        &StringMap::new(),
    );
    assert_eq!(detailed, found);
}

#[test]
fn a_pending_session_adopts_its_name() {
    let mut session = thread("019f9631-f91c-7f20-95f3-019a0ba62241", 10);
    session.runtime = RuntimeOwner::TmuxFrontend;
    session.tmux = Some(TmuxBinding {
        session: "rc-pending-rollcall-1".to_owned(),
        pane: "%1".to_owned(),
    });
    let name = desired_tmux_name(&session).expect("the session is pending");
    assert_eq!(name, "rc-rollcall-0ba62241");
    adopt_tmux_name(&mut session, name);
    assert_eq!(desired_tmux_name(&session), None);
    assert_eq!(
        session.tmux.expect("binding").session,
        "rc-rollcall-0ba62241"
    );
}

#[test]
fn a_thread_is_attached_where_it_runs() {
    let live = parse_live_observations(
        "a\ttmux\twork\t%3\tworking\nb\texternal\t\t\tworking\n",
    );
    let found = discover(
        vec![thread("a", 30), thread("b", 20), thread("c", 10)],
        "topo",
        &live,
    );
    assert_eq!(
        attach("topo", "a", &found),
        Ok(CodexAttachment::Pane {
            host: "topo".to_owned(),
            binding: TmuxBinding {
                session: "work".to_owned(),
                pane: "%3".to_owned(),
            },
        })
    );
    let refused = attach("topo", "b", &found).expect_err("another terminal has it");
    assert!(matches!(&refused, CodexError::ExternalFrontend(_)));
    assert!(refused.message().contains("topo:codex:b"));
    assert_eq!(
        attach("topo", "c", &found),
        Ok(CodexAttachment::Resume(found[2].clone()))
    );
    assert_eq!(resume("topo", "c", &found), Ok(found[2].clone()));
    let missing = attach("topo", "d", &found).expect_err("there is no such thread");
    assert!(matches!(&missing, CodexError::MissingSession(_)));
    assert!(missing.message().contains("topo:codex:d"));
}

#[test]
fn a_resumed_thread_talks_to_the_shared_runtime() {
    let mut session = thread("019f", 10);
    session.host = "topo".to_owned();
    session.agent = AgentKind::Codex;
    let handoff = resume_session(&session, "/run/codex.sock", false, "topo").expect("handoff");
    assert_eq!(handoff.program, "tmux");
    assert_eq!(handoff.arguments[3], "rc-rollcall-019f");
    assert_eq!(
        shlex::split(&handoff.arguments[6]).expect("words")[3],
        "exec codex --remote unix:///run/codex.sock resume 019f"
    );
}

#[test]
fn the_host_is_asked_by_a_script() {
    assert_eq!(observed_host("local", "laptop"), "laptop");
    let (program, arguments) = available("local", "laptop").expect("command");
    assert_eq!(program, "bash");
    assert_eq!(arguments.last().map(String::as_str), Some(AVAILABLE_SCRIPT));
    let (program, _) = observe_command("topo", "laptop").expect("command");
    assert_eq!(program, "ssh");

    let mut outcome = CommandOutcome {
        success: true,
        status: "exit status: 1".to_owned(),
        stdout: "a\ttmux\twork\t%3\tworking\n".to_owned(),
        stderr: String::new(),
    };
    assert_eq!(observe_live(&outcome).expect("observations").len(), 1);
    outcome.success = false;
    assert!(observe_live(&outcome).is_err());
}

#[test]
fn slugs_hold_lower_case_letters_digits_and_single_hyphens() {
    assert_eq!(slugify_tmux_component("Roll  Call!"), "roll-call");
    assert_eq!(slugify_tmux_component("--a--"), "a");
    assert_eq!(slugify_tmux_component("-- !"), "");
    let long = slugify_tmux_component("abcdefghijklmnopqrstuvw // xyz");
    assert_eq!(long, "abcdefghijklmnopqrstuvw-x");
    for slug in ["roll-call", "a", "", long.as_str()] {
        assert_eq!(slugify_tmux_component(slug), slug);
    }
}

#[test]
fn the_terminal_of_a_session_does_not_depend_on_the_order_of_the_lines() {
    let lines = [
        "a\tshared\t\t\tcompleted",
        "a\ttmux\twork\t%3\tworking",
        "a\texternal\t\t\tunknown",
    ];
    for order in [[0, 1, 2], [1, 0, 2], [2, 0, 1], [2, 1, 0]] {
        let output: Vec<&str> = order.iter().map(|at| lines[*at]).collect();
        let observations = parse_live_observations(&output.join("\n"));
        let binding = observations.get("a").and_then(|found| found.tmux.as_ref());
        let binding = binding.expect("the session has a terminal");
        assert_eq!((binding.session.as_str(), binding.pane.as_str()), ("work", "%3"));
    }
}
