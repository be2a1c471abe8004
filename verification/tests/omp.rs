use rollcall::domain::{Activity, AgentKind, RuntimeOwner, Session, TmuxBinding};
use rollcall::omp::{
    attach, deterministic_tmux_name, discover, observe_live, parse_file, parse_live,
    parse_sessions, resume, resume_session, run, run_command, session_script, OmpAttachment,
    OmpError, LIVE_SCRIPT, SESSION_SCRIPT,
};
use rollcall::tmux::CommandOutcome;

fn lines(text: &[&str]) -> Vec<String> {
    text.iter().map(|line| (*line).to_owned()).collect()
}

fn outcome(success: bool, stdout: &str, stderr: &str) -> CommandOutcome {
    CommandOutcome {
        success,
        status: "exit status: 1".to_owned(),
        stdout: stdout.to_owned(),
        stderr: stderr.to_owned(),
    }
}

fn session(native_id: &str, runtime: RuntimeOwner) -> Session {
    Session {
        id: format!("topo:omp:{native_id}"),
        host: "topo".to_owned(),
        agent: AgentKind::Omp,
        native_session_id: native_id.to_owned(),
        title: "title".to_owned(),
        cwd: "/work/rollcall".to_owned(),
        source: "omp".to_owned(),
        activity: Activity::Completed,
        last_message: String::new(),
        last_interaction_unix_seconds: 1,
        updated_unix_seconds: 1,
        runtime,
        tmux: None,
    }
}

#[test]
fn parses_omp_session_header_and_latest_assistant_message() {
    let lines = lines(&[
        r#"{"type":"session","version":3,"id":"019abc","cwd":"/work/rollcall","title":"Old"}"#,
        r#"{"type":"title","title":"New title"}"#,
        r#"{"type":"message","message":{"role":"assistant","content":[{"type":"text","text":"done"}]}}"#,
    ]);
    let session = parse_file(&lines, 100, 200)
        .expect("valid session")
        .expect("header");
    assert_eq!(session.native_session_id, "019abc");
    assert_eq!(session.title, "New title");
    assert_eq!(session.last_message, "done");
    assert_eq!(session.activity, Activity::Unknown);
}

#[test]
fn parses_live_omp_frontend() {
    let live = parse_live("019abc\ttmux\twork\t%4\tworking\n");
    let observation = live.get("019abc").expect("observation");
    assert_eq!(observation.runtime, RuntimeOwner::TmuxFrontend);
    assert_eq!(observation.activity, Activity::Working);
}

#[test]
fn a_file_without_a_header_holds_no_session() {
    let lines = lines(&[r#"{"type":"title","title":"Alone"}"#]);
    assert_eq!(parse_file(&lines, 100, 200), Ok(None));
}

#[test]
fn a_line_that_is_no_document_is_skipped() {
    let lines = lines(&[
        r#"{"type":"session","id":"a","cwd":"/w","title":"T"}"#,
        "not json",
    ]);
    let session = parse_file(&lines, 100, 200).expect("readable").expect("header");
    assert_eq!(session.title, "T");
    assert_eq!(session.last_interaction_unix_seconds, 100);
}

#[test]
fn listings_hold_one_session_for_every_file_with_a_header() {
    let output = "\
FILE\t100\t/sessions/a.jsonl
{\"type\":\"session\",\"id\":\"a\",\"cwd\":\"/w\",\"title\":\"A\"}
END
FILE\t150\t/sessions/empty.jsonl
END
FILE\t0\t/sessions/b.jsonl
{\"type\":\"session\",\"id\":\"b\",\"cwd\":\"/w\"}
END
";
    let sessions = parse_sessions(output, 300).expect("the listing should parse");
    assert_eq!(sessions.len(), 2);
    assert_eq!(sessions[0].title, "A");
    assert_eq!(sessions[0].updated_unix_seconds, 100);
    // Without a title the directory stands for it, and without a time the present.
    assert_eq!(sessions[1].title, "/w");
    assert_eq!(sessions[1].updated_unix_seconds, 300);
}

#[test]
fn the_script_takes_the_limit_from_its_environment() {
    assert_eq!(session_script(None), SESSION_SCRIPT);
    let limited = session_script(Some(7));
    assert!(limited.starts_with("ROLLCALL_SESSION_LIMIT=7 "));
    assert!(limited.ends_with(SESSION_SCRIPT));
}

#[test]
fn the_listing_runs_here_or_over_ssh() {
    let (program, arguments) = run_command("local", LIVE_SCRIPT, "topo").expect("command");
    assert_eq!(program, "bash");
    assert_eq!(arguments.last().map(String::as_str), Some(LIVE_SCRIPT));

    let (program, arguments) = run_command("coda", "echo 'a b'", "topo").expect("command");
    assert_eq!(program, "ssh");
    let words = shlex::split(arguments.last().expect("remote command")).expect("words");
    assert_eq!(words.last().map(String::as_str), Some("echo 'a b'"));

    assert!(run_command("coda", "a\0b", "topo").is_err());
}

#[test]
fn a_failed_listing_says_why() {
    assert_eq!(run(&outcome(true, "out", "")), Ok("out".to_owned()));
    assert_eq!(
        run(&outcome(false, "", " broken \n")),
        Err(OmpError::CommandFailed("broken".to_owned()))
    );
    assert!(observe_live(&outcome(false, "", "broken")).is_err());
    assert_eq!(
        observe_live(&outcome(true, "a\ttmux\tw\t%1\tworking\n", ""))
            .expect("observations")
            .len(),
        1
    );
}

#[test]
fn live_processes_are_correlated_with_their_sessions() {
    let output = "\
FILE\t100\t/sessions/a.jsonl
{\"type\":\"session\",\"id\":\"a\",\"cwd\":\"/w\",\"title\":\"A\"}
END
FILE\t200\t/sessions/b.jsonl
{\"type\":\"session\",\"id\":\"b\",\"cwd\":\"/w\",\"title\":\"B\"}
END
";
    let live = parse_live("a\ttmux\twork\t%4\tworking\nb\tnoise\n");
    let sessions = discover(output, 300, "topo", &live, Some(5)).expect("a listing");
    assert_eq!(sessions.len(), 2);
    assert_eq!(sessions[0].id, "topo:omp:b");
    assert_eq!(sessions[0].runtime, RuntimeOwner::Resumable);
    assert_eq!(sessions[1].id, "topo:omp:a");
    assert_eq!(sessions[1].activity, Activity::Working);
    assert_eq!(
        sessions[1].tmux,
        Some(TmuxBinding {
            session: "work".to_owned(),
            pane: "%4".to_owned(),
        })
    );
    let newest = discover(output, 300, "topo", &live, Some(1)).expect("a listing");
    assert_eq!(newest.len(), 1);
    assert_eq!(newest[0].native_session_id, "b");
}

#[test]
fn a_session_in_another_terminal_is_left_alone() {
    let sessions = vec![session("a", RuntimeOwner::ExternalFrontend)];
    assert!(matches!(
        attach("a", &sessions),
        Err(OmpError::ExternalFrontend(_))
    ));
    assert_eq!(resume("a", &sessions), Ok(sessions[0].clone()));
}

#[test]
fn a_session_in_a_pane_is_attached_and_another_resumed() {
    let mut in_pane = session("a", RuntimeOwner::TmuxFrontend);
    in_pane.tmux = Some(TmuxBinding {
        session: "work".to_owned(),
        pane: "%4".to_owned(),
    });
    let idle = session("b", RuntimeOwner::Resumable);
    let sessions = vec![in_pane.clone(), idle.clone()];
    assert_eq!(
        attach("a", &sessions),
        Ok(OmpAttachment::Pane {
            host: "topo".to_owned(),
            binding: TmuxBinding {
                session: "work".to_owned(),
                pane: "%4".to_owned(),
            },
        })
    );
    assert_eq!(attach("b", &sessions), Ok(OmpAttachment::Resume(idle)));
    let error = attach("c", &sessions).expect_err("there is no such session");
    assert!(error.message().contains('c'));
}

#[test]
fn a_resumed_session_keeps_its_name_and_directory() {
    assert_eq!(
        deterministic_tmux_name("/work/roll call", "019f-aaaa-bbbbcccc"),
        "rc-omp-roll-call-bbbbcccc"
    );
    let handoff = resume_session(&session("019abc", RuntimeOwner::Resumable), false, "topo")
        .expect("the session can be resumed");
    assert_eq!(handoff.program, "tmux");
    assert_eq!(
        &handoff.arguments[..6],
        [
            "new-session",
            "-A",
            "-s",
            "rc-omp-rollcall-019abc",
            "-c",
            "/work/rollcall"
        ]
    );
    assert_eq!(
        shlex::split(&handoff.arguments[6]).expect("words"),
        ["exec", "bash", "-lc", "omp --resume 019abc"]
    );
}
