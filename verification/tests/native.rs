use rollcall::domain::{Activity, AgentKind, RuntimeOwner, Session, TmuxBinding};
use rollcall::native::{
    attach, deterministic_tmux_name, discover, observe_live, probe_command, probe_output, relabel,
    resume_command, NativeAttachment, NativeError, NativeSession,
};
use rollcall::tmux::{self, AttachmentPlan, CommandOutcome};

const ID: &str = "11111111-1111-4111-8111-111111111111";

fn row(agent: AgentKind) -> NativeSession {
    NativeSession {
        session: Session {
            id: String::new(),
            host: "local".to_owned(),
            agent,
            native_session_id: "main/raw-id".to_owned(),
            title: "Test".to_owned(),
            cwd: "/work".to_owned(),
            source: agent.as_str().to_owned(),
            activity: Activity::Completed,
            last_message: String::new(),
            last_interaction_unix_seconds: 1,
            updated_unix_seconds: 1,
            runtime: RuntimeOwner::Resumable,
            tmux: None,
        },
        locator: "/tmp/a directory/session 'quoted'.jsonl".to_owned(),
        raw_id: "raw-id".to_owned(),
        profile: Some("main".to_owned()),
        ownership_uncertain: false,
    }
}

fn fixture(agent: AgentKind) -> NativeSession {
    let mut candidate = row(agent);
    candidate.session.native_session_id = ID.to_owned();
    candidate.session.title = "Fixture".to_owned();
    candidate.session.cwd = "/work/a project".to_owned();
    candidate.session.activity = Activity::Unknown;
    candidate.locator = "/config/an agent's directory".to_owned();
    candidate.raw_id = ID.to_owned();
    candidate.profile = Some("a project 'quoted'".to_owned());
    candidate
}

/// Opens the one record of an inventory and tells which program is handed the terminal.
fn invoke(
    candidate: NativeSession,
    force_resume: bool,
    host: &str,
) -> Result<(&'static str, Vec<String>), NativeError> {
    let agent = candidate.session.agent;
    let native_id = candidate.session.native_session_id.clone();
    let records = relabel(vec![candidate], host, agent);
    let handoff = match attach(host, agent, &native_id, force_resume, &records)? {
        NativeAttachment::Pane(binding) => {
            tmux::attach_pane(host, &binding.session, &binding.pane, false, "laptop")
        }
        NativeAttachment::Resume { name, cwd, command } => {
            tmux::resume_command(host, &name, &cwd, &command, false, "laptop")
        }
    }
    .map_err(NativeError::Tmux)?;
    let plan = tmux::plan_attachment(handoff.program, &handoff.arguments, None, false)
        .map_err(NativeError::Tmux)?;
    match plan {
        AttachmentPlan::Run { program, arguments } => Ok((program, arguments)),
        AttachmentPlan::ReplaceClient { .. } => panic!("no client was named"),
    }
}

#[test]
fn native_resume_uses_exact_file_or_profile_and_id() {
    let pi = row(AgentKind::Pi);
    assert_eq!(
        shlex::split(&resume_command(&pi).unwrap()).unwrap(),
        ["pi", "--session", pi.locator.as_str()]
    );
    assert_eq!(
        shlex::split(&resume_command(&row(AgentKind::Hermes)).unwrap()).unwrap(),
        ["hermes", "--profile", "main", "--resume", "raw-id"]
    );
}

#[test]
fn agy_resume_preserves_exact_identity_and_project() {
    let mut agy = row(AgentKind::Agy);
    agy.profile = Some("a project 'quoted'".to_owned());
    assert_eq!(
        shlex::split(&resume_command(&agy).unwrap()).unwrap(),
        [
            "agy",
            "--conversation",
            "raw-id",
            "--project",
            "a project 'quoted'"
        ]
    );
    agy.profile = None;
    assert_eq!(
        shlex::split(&resume_command(&agy).unwrap()).unwrap(),
        ["agy", "--conversation", "raw-id"]
    );
}

#[test]
fn hermes_without_a_profile_resumes_from_its_directory() {
    let mut hermes = row(AgentKind::Hermes);
    hermes.profile = None;
    assert_eq!(
        shlex::split(&resume_command(&hermes).unwrap()).unwrap(),
        [
            "env",
            &format!("HERMES_HOME={}", hermes.locator),
            "hermes",
            "--profile",
            "default",
            "--resume",
            "raw-id"
        ]
    );
}

#[test]
fn the_agy_adapter_dispatches_an_exact_local_resume_command() {
    let (program, args) =
        invoke(fixture(AgentKind::Agy), false, "local").expect("it should resume");
    assert_eq!(program, "tmux");
    assert_eq!(&args[..3], &["new-session", "-A", "-s"]);
    assert_eq!(args[5], "/work/a project");
    let login = shlex::split(&args[6]).unwrap();
    assert_eq!(&login[..3], &["exec", "bash", "-lc"]);
    assert_eq!(
        shlex::split(&login[3]).unwrap(),
        [
            "agy",
            "--conversation",
            ID,
            "--project",
            "a project 'quoted'"
        ]
    );
}

#[test]
fn uncertain_ownership_blocks_attach_but_allows_explicit_resume() {
    for agent in [AgentKind::Pi, AgentKind::Hermes, AgentKind::Agy] {
        let mut candidate = fixture(agent);
        candidate.ownership_uncertain = true;
        candidate.session.tmux = Some(TmuxBinding {
            session: "existing".to_owned(),
            pane: "%9".to_owned(),
        });
        let error = invoke(candidate.clone(), false, "local").expect_err("attach is refused");
        assert!(error
            .message()
            .contains("refusing an implicit second writer"));
        let (program, args) = invoke(candidate, true, "local").expect("resume is explicit");
        assert_eq!(program, "tmux");
        assert_eq!(args[0], "new-session");
    }
}

#[test]
fn agy_remote_resume_uses_existing_ssh_transport_and_login_shell() {
    let (program, args) =
        invoke(fixture(AgentKind::Agy), true, "fixture-host").expect("it should resume");
    assert_eq!(program, "ssh");
    assert_eq!(&args[..3], &["-t", "--", "fixture-host"]);
    let login = shlex::split(&args[3]).unwrap();
    assert_eq!(&login[..2], &["bash", "-lc"]);
    let tmux = shlex::split(&login[2]).unwrap();
    let inner = shlex::split(tmux.last().unwrap()).unwrap();
    let command = shlex::split(&inner[3]).unwrap();
    assert_eq!(
        command,
        [
            "agy",
            "--conversation",
            ID,
            "--project",
            "a project 'quoted'"
        ]
    );
}

#[test]
fn missing_workspace_does_not_resume_in_a_guessed_directory() {
    let mut candidate = fixture(AgentKind::Agy);
    candidate.session.cwd = String::new();
    let error = invoke(candidate, true, "local").expect_err("there is no workspace");
    assert!(error.message().contains("no known workspace"));
}

#[test]
fn the_probe_runs_here_or_over_ssh() {
    let (program, arguments) =
        probe_command("local", AgentKind::Pi, Some(3), false, "print('it')", "topo")
            .expect("command");
    assert_eq!(program, "bash");
    let words = shlex::split(arguments.last().expect("script")).expect("words");
    assert_eq!(words[0], "python3");
    assert!(words.contains(&"print('it')".to_owned()));
    assert!(words.contains(&"pi".to_owned()));
    assert!(words.contains(&"3".to_owned()));

    let (program, arguments) =
        probe_command("coda", AgentKind::Pi, None, true, "print('it')", "topo").expect("command");
    assert_eq!(program, "ssh");
    assert!(arguments.contains(&"coda".to_owned()));
    assert!(probe_command("local", AgentKind::Pi, None, true, "a\0b", "topo").is_err());
}

#[test]
fn a_failed_probe_names_the_agent_and_the_host() {
    let mut outcome = CommandOutcome {
        success: true,
        status: "exit status: 1".to_owned(),
        stdout: "[]".to_owned(),
        stderr: String::new(),
    };
    assert_eq!(
        probe_output("topo", AgentKind::Agy, &outcome),
        Ok("[]".to_owned())
    );
    outcome.success = false;
    outcome.stderr = "no python\n".to_owned();
    let error = probe_output("topo", AgentKind::Agy, &outcome).expect_err("it failed");
    assert!(error.message().contains("agy"));
    assert!(error.message().contains("topo"));
    assert!(error.message().contains("no python"));
}

#[test]
fn records_are_relabelled_with_the_host_that_was_asked() {
    let records = relabel(vec![row(AgentKind::Pi)], "topo", AgentKind::Pi);
    assert_eq!(records[0].session.id, "topo:pi:main/raw-id");
    assert_eq!(records[0].session.host, "topo");
    assert_eq!(discover(&records), [records[0].session.clone()]);
}

#[test]
fn only_records_of_running_processes_are_observed() {
    let idle = row(AgentKind::Pi);
    let mut running = row(AgentKind::Pi);
    running.session.native_session_id = "b".to_owned();
    running.session.runtime = RuntimeOwner::ExternalFrontend;
    running.session.activity = Activity::Working;
    let live = observe_live(&vec![idle, running]);
    let observed = live.get("b").expect("the running process is observed");
    assert_eq!(observed.activity, Activity::Working);
    assert_eq!(observed.runtime, RuntimeOwner::ExternalFrontend);
}

#[test]
fn managed_names_keep_the_native_identifier() {
    assert_eq!(deterministic_tmux_name(AgentKind::Pi, "a/"), "rc-pi-612f");
    assert_ne!(
        deterministic_tmux_name(AgentKind::Pi, "main/a"),
        deterministic_tmux_name(AgentKind::Pi, "main-a")
    );
}

#[test]
fn a_record_in_a_pane_is_attached_there() {
    let mut candidate = row(AgentKind::Hermes);
    candidate.session.runtime = RuntimeOwner::TmuxFrontend;
    candidate.session.tmux = Some(TmuxBinding {
        session: "work".to_owned(),
        pane: "%2".to_owned(),
    });
    let (program, arguments) = invoke(candidate, false, "local").expect("it is attached");
    assert_eq!(program, "tmux");
    assert_eq!(&arguments[..3], ["select-window", "-t", "%2"]);
}

#[test]
fn a_record_in_another_terminal_is_left_alone() {
    let mut candidate = row(AgentKind::Hermes);
    candidate.session.runtime = RuntimeOwner::ExternalFrontend;
    assert!(matches!(
        invoke(candidate, false, "local"),
        Err(NativeError::Command(_))
    ));
    let missing = attach("local", AgentKind::Pi, "none", false, &vec![]);
    assert!(missing.is_err());
}
