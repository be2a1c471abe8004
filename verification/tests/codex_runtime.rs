use rollcall::codex_runtime::{
    connect_or_start, ensure, forward_arguments, host_script_command, parse_status,
    run_host_script, runtime_start_script, runtime_status_script, runtime_stop_script, status,
    stop, wait_for_socket, ConnectStep, RuntimeError, RuntimeStatus, SocketWait,
};
use rollcall::tmux::{is_local, local_hostname, CommandOutcome};

fn outcome(success: bool, stdout: &str, stderr: &str) -> CommandOutcome {
    CommandOutcome {
        success,
        status: "exit status: 1".to_owned(),
        stdout: stdout.to_owned(),
        stderr: stderr.to_owned(),
    }
}

#[test]
fn observed_local_hostname_uses_the_local_runtime_path() {
    assert!(is_local("local", "topo"));
    assert!(is_local(&local_hostname(Some("topo".to_owned()), None), "topo"));
}

#[test]
fn parses_running_and_stopped_status() {
    let running =
        parse_status("noise\nrunning\t/tmp/codex.sock\n").expect("running status should parse");
    assert!(running.running);
    assert_eq!(running.socket_path, "/tmp/codex.sock");

    let stopped =
        parse_status("stopped\t/home/fin/.cache/codex.sock\n").expect("status should parse");
    assert!(!stopped.running);
}

#[test]
fn runtime_scripts_namespace_the_stable_tmux_session_and_socket_by_codex_home() {
    assert!(runtime_status_script().contains("CODEX_HOME"));
    assert!(runtime_status_script().contains("rc-codex-$profile"));
    let script = runtime_start_script();
    assert!(script.contains("codex-$profile.sock"));
    assert!(script.contains("codex app-server --listen"));
}

#[test]
fn runtime_start_waits_for_an_existing_session_before_replacing_it() {
    let script = runtime_start_script();
    let first_wait = script
        .find("while [ \"$attempt\" -lt 50 ]")
        .expect("existing runtime wait");
    let stale_kill = script
        .find("tmux kill-session -t \"$session\"")
        .expect("stale runtime cleanup");
    assert!(first_wait < stale_kill);
    assert!(script.contains("current_id"));
    assert!(script.contains("stale_id"));
}

#[test]
fn a_runtime_that_runs_is_connected_and_another_started() {
    assert_eq!(
        connect_or_start(RuntimeStatus {
            socket_path: "/s".to_owned(),
            running: true,
        }),
        ConnectStep::Connect("/s".to_owned())
    );
    assert_eq!(
        connect_or_start(RuntimeStatus {
            socket_path: "/s".to_owned(),
            running: false,
        }),
        ConnectStep::Start
    );
    assert_eq!(
        ensure(&outcome(true, "running\t/s\n", "")),
        Ok("/s".to_owned())
    );
}

#[test]
fn output_without_a_status_is_an_error() {
    assert!(parse_status("nothing here\n").is_err());
    assert!(status(&outcome(true, "noise", "")).is_err());
    assert_eq!(
        stop(&outcome(true, "stopped\t/s\n", "")),
        Ok(RuntimeStatus {
            socket_path: "/s".to_owned(),
            running: false,
        })
    );
}

#[test]
fn a_script_that_failed_says_why() {
    assert_eq!(
        run_host_script(&outcome(true, "out", "")),
        Ok("out".to_owned())
    );
    let error = run_host_script(&outcome(false, "", "broken\n")).expect_err("it failed");
    assert!(matches!(error, RuntimeError::CommandFailed { .. }));
    assert!(error.message().contains("broken"));
    assert!(!RuntimeError::MissingHome.message().is_empty());
}

#[test]
fn scripts_run_here_or_over_ssh() {
    let (program, arguments) =
        host_script_command("local", runtime_stop_script(), "topo").expect("command");
    assert_eq!(program, "bash");
    assert_eq!(
        arguments.last().map(String::as_str),
        Some(runtime_stop_script())
    );
    let (program, _) =
        host_script_command("coda", runtime_stop_script(), "topo").expect("command");
    assert_eq!(program, "ssh");
}

#[test]
fn the_remote_socket_is_forwarded() {
    let arguments = forward_arguments("/tmp/local.sock", "/run/remote.sock", "topo");
    assert!(arguments.contains(&"/tmp/local.sock:/run/remote.sock".to_owned()));
    assert_eq!(arguments.last().map(String::as_str), Some("topo"));
}

#[test]
fn the_forwarded_socket_is_waited_for() {
    assert_eq!(wait_for_socket(true, true, None, "/s"), SocketWait::Ready);
    assert_eq!(wait_for_socket(true, false, None, "/s"), SocketWait::Again);
    assert!(matches!(
        wait_for_socket(true, false, Some("exit status: 255".to_owned()), "/s"),
        SocketWait::Failed(_)
    ));
    assert!(matches!(
        wait_for_socket(false, false, None, "/s"),
        SocketWait::Failed(_)
    ));
}
