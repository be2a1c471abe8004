use rollcall::tmux::{
    attach, attach_command, attach_pane_command, capture_pane, capture_pane_command, discover,
    discover_command, failure_message, find_client, handed_over, is_local, is_missing_tmux_server,
    local_hostname, named_client, origin_client, parse_session, parse_target, plan_attachment,
    remote_client_command, rename_session, rename_session_command, renamed_session, replace_client,
    resume_codex_command, resume_command, sanitize_capture, target_client, AttachmentPlan,
    CommandOutcome, TmuxError, TmuxTarget,
};

fn outcome(success: bool, stdout: &str, stderr: &str) -> CommandOutcome {
    CommandOutcome {
        success,
        status: "exit status: 1".to_owned(),
        stdout: stdout.to_owned(),
        stderr: stderr.to_owned(),
    }
}

fn words(text: &[&str]) -> Vec<String> {
    text.iter().map(|word| (*word).to_owned()).collect()
}

#[test]
fn parses_tmux_inventory_rows() {
    let session =
        parse_session("local", "fabric\t100\t200\t1\t3").expect("inventory row should parse");

    assert_eq!(session.id, "local:tmux:fabric");
    assert_eq!(session.name, "fabric");
    assert_eq!(session.created_unix_seconds, 100);
    assert_eq!(session.last_activity_unix_seconds, 200);
    assert_eq!(session.attached_clients, 1);
    assert_eq!(session.windows, 3);
}

#[test]
fn bare_names_refer_to_local_sessions() {
    assert_eq!(
        parse_target("fabric").expect("target should parse"),
        TmuxTarget {
            host: "local".to_owned(),
            name: "fabric".to_owned(),
        }
    );
}

#[test]
fn stable_ids_preserve_colons_in_session_names() {
    assert_eq!(
        parse_target("topo:tmux:agent:review").expect("target should parse"),
        TmuxTarget {
            host: "topo".to_owned(),
            name: "agent:review".to_owned(),
        }
    );
}

#[test]
fn local_attachment_switches_clients_when_already_inside_tmux() {
    let target = TmuxTarget {
        host: "local".to_owned(),
        name: "fabric".to_owned(),
    };

    assert_eq!(
        attach_command(&target, true, "topo").expect("command should be built"),
        (
            "tmux",
            vec![
                "switch-client".to_owned(),
                "-t".to_owned(),
                "fabric".to_owned()
            ]
        )
    );
}

#[test]
fn remote_attachment_shell_quotes_the_session_name() {
    let target = TmuxTarget {
        host: "topo".to_owned(),
        name: "agent review; false".to_owned(),
    };
    let (program, arguments) =
        attach_command(&target, false, "laptop").expect("command should be built");

    assert_eq!(program, "ssh");
    assert_eq!(&arguments[..3], ["-t", "--", "topo"]);
    assert_eq!(
        shlex::split(&arguments[3]).expect("remote command should parse"),
        ["tmux", "attach-session", "-t", "agent review; false"]
    );
}

#[test]
fn stable_id_for_the_current_host_attaches_locally() {
    let target = TmuxTarget {
        host: "topo".to_owned(),
        name: "fabric".to_owned(),
    };

    let (program, arguments) =
        attach_command(&target, false, "topo").expect("command should be built");

    assert_eq!(program, "tmux");
    assert_eq!(arguments, ["attach-session", "-t", "fabric"]);
}

#[test]
fn missing_socket_is_treated_as_an_empty_inventory() {
    assert!(is_missing_tmux_server(
        "error connecting to /tmp/tmux-1000/default (No such file or directory)"
    ));
}

#[test]
fn pane_attachment_selects_the_exact_local_codex_pane() {
    let target = TmuxTarget {
        host: "topo".to_owned(),
        name: "fabric".to_owned(),
    };
    let (program, arguments) =
        attach_pane_command(&target, "%19", true, "topo").expect("command should be built");

    assert_eq!(program, "tmux");
    assert_eq!(
        arguments,
        [
            "select-window",
            "-t",
            "%19",
            ";",
            "select-pane",
            "-t",
            "%19",
            ";",
            "switch-client",
            "-t",
            "fabric"
        ]
    );
}

#[test]
fn remote_pane_attachment_from_local_tmux_attaches_on_the_remote_host() {
    let target = TmuxTarget {
        host: "remote".to_owned(),
        name: "agent".to_owned(),
    };
    let (program, arguments) = attach_pane_command(&target, "%19", true, "topo").unwrap();
    assert_eq!(program, "ssh");
    let command = shlex::split(arguments.last().unwrap()).unwrap();
    assert!(command.contains(&"attach-session".to_owned()));
    assert!(!command.contains(&"switch-client".to_owned()));
}

#[test]
fn remote_pane_attachment_preserves_tmux_command_separators() {
    let target = TmuxTarget {
        host: "coda".to_owned(),
        name: "fabric".to_owned(),
    };
    let (program, arguments) =
        attach_pane_command(&target, "%19", false, "topo").expect("command should be built");

    assert_eq!(program, "ssh");
    assert_eq!(&arguments[..3], ["-t", "--", "coda"]);
    assert_eq!(
        shlex::split(&arguments[3]).expect("remote tmux command should parse"),
        [
            "tmux",
            "select-window",
            "-t",
            "%19",
            ";",
            "select-pane",
            "-t",
            "%19",
            ";",
            "attach-session",
            "-t",
            "fabric"
        ]
    );
}

#[test]
fn local_pane_capture_is_bounded_and_targets_the_exact_pane() {
    let target = TmuxTarget {
        host: "topo".to_owned(),
        name: "agents".to_owned(),
    };
    let (program, arguments) =
        capture_pane_command(&target, "%19", 80, "topo").expect("command should build");

    assert_eq!(program, "tmux");
    assert_eq!(
        arguments,
        ["capture-pane", "-p", "-J", "-S", "-80", "-t", "%19"]
    );
}

#[test]
fn remote_pane_capture_uses_noninteractive_bounded_ssh() {
    let target = TmuxTarget {
        host: "coda".to_owned(),
        name: "agents".to_owned(),
    };
    let (program, arguments) =
        capture_pane_command(&target, "%19", 5_000, "topo").expect("command should build");

    assert_eq!(program, "ssh");
    assert!(arguments.iter().any(|argument| argument == "BatchMode=yes"));
    assert_eq!(
        shlex::split(arguments.last().expect("remote command"))
            .expect("remote command should parse"),
        [
            "tmux",
            "capture-pane",
            "-p",
            "-J",
            "-S",
            "-1000",
            "-t",
            "%19"
        ]
    );
}

#[test]
fn pane_capture_removes_terminal_control_characters() {
    assert_eq!(
        sanitize_capture("line one\u{1b}[31m\nline\ttwo\r\n\n"),
        "line one[31m\nline\ttwo"
    );
}

#[test]
fn managed_session_renames_are_local_when_the_host_matches() {
    let target = TmuxTarget {
        host: "topo".to_owned(),
        name: "rc-pending-fabric-123".to_owned(),
    };
    let (program, arguments) = rename_session_command(&target, "rc-fabric-deadbeef", "topo")
        .expect("rename command should be built");

    assert_eq!(program, "tmux");
    assert_eq!(
        arguments,
        [
            "rename-session",
            "-t",
            "rc-pending-fabric-123",
            "rc-fabric-deadbeef"
        ]
    );
}

#[test]
fn remote_managed_session_renames_are_shell_quoted() {
    let target = TmuxTarget {
        host: "coda".to_owned(),
        name: "rc-pending-fabric-123".to_owned(),
    };
    let (program, arguments) = rename_session_command(&target, "rc-fabric-deadbeef", "topo")
        .expect("rename command should be built");

    assert_eq!(program, "ssh");
    assert_eq!(&arguments[..3], ["-T", "--", "coda"]);
    assert_eq!(
        shlex::split(&arguments[3]).expect("remote rename should parse"),
        [
            "tmux",
            "rename-session",
            "-t",
            "rc-pending-fabric-123",
            "rc-fabric-deadbeef"
        ]
    );
}

#[test]
fn local_codex_resume_creates_or_attaches_atomically() {
    let target = TmuxTarget {
        host: "local".to_owned(),
        name: "codex-deadbeef".to_owned(),
    };
    let (program, arguments) = resume_codex_command(
        &target,
        "/tmp/project with spaces",
        "019f-dead-beef",
        "/run/user/1000/rollcall/codex-123.sock",
        false,
        "topo",
    )
    .expect("command should be built");

    assert_eq!(program, "tmux");
    assert_eq!(
        &arguments[..6],
        [
            "new-session",
            "-A",
            "-s",
            "codex-deadbeef",
            "-c",
            "/tmp/project with spaces"
        ]
    );
    assert_eq!(
        shlex::split(&arguments[6]).expect("login command should parse"),
        [
            "exec",
            "bash",
            "-lc",
            "exec codex --remote unix:///run/user/1000/rollcall/codex-123.sock resume 019f-dead-beef"
        ]
    );
}

#[test]
fn codex_resume_switches_the_current_tmux_client() {
    let target = TmuxTarget {
        host: "topo".to_owned(),
        name: "codex-deadbeef".to_owned(),
    };
    let (program, arguments) = resume_codex_command(
        &target,
        "/fabric",
        "019f",
        "/run/user/1000/rollcall/codex.sock",
        true,
        "topo",
    )
    .expect("command should be built");

    assert_eq!(program, "tmux");
    assert_eq!(&arguments[..2], ["new-session", "-Ad"]);
    assert_eq!(
        &arguments[7..],
        [";", "switch-client", "-t", "codex-deadbeef"]
    );
}

#[test]
fn remote_codex_resume_quotes_all_native_values() {
    let target = TmuxTarget {
        host: "coda".to_owned(),
        name: "codex weird; false".to_owned(),
    };
    let (program, arguments) = resume_codex_command(
        &target,
        "/tmp/project with spaces",
        "019f; false",
        "/tmp/runtime with spaces/codex.sock",
        false,
        "topo",
    )
    .expect("command should be built");

    assert_eq!(program, "ssh");
    assert_eq!(&arguments[..3], ["-t", "--", "coda"]);
    let remote =
        shlex::split(&arguments[3]).expect("remote command should remain one safe command");
    assert_eq!(
        &remote[..7],
        [
            "tmux",
            "new-session",
            "-A",
            "-s",
            "codex weird; false",
            "-c",
            "/tmp/project with spaces"
        ]
    );
    assert_eq!(
        shlex::split(&remote[7]).expect("nested login command should parse"),
        [
            "exec",
            "bash",
            "-lc",
            "exec codex --remote 'unix:///tmp/runtime with spaces/codex.sock' resume '019f; false'"
        ]
    );
}

#[test]
fn remote_client_returns_to_exact_socket_after_success_or_failure() {
    let command = remote_client_command(
        &words(&["-t", "--", "remote", "exec bash -lc 'tmux attach'"]),
        "$4",
        "/tmp/a socket/default",
    )
    .unwrap();
    let (ssh, rest) = command.split_once("; status=$?; ").expect("the status is kept");
    assert_eq!(
        shlex::split(ssh).unwrap(),
        [
            "env",
            "-u",
            "TMUX",
            "-u",
            "TMUX_PANE",
            "ssh",
            "-t",
            "--",
            "remote",
            "exec bash -lc 'tmux attach'"
        ]
    );
    let (report, back) = rest.split_once("; fi; ").expect("the way back follows");
    assert!(report.contains("SSH exited with status %s"));
    assert_eq!(
        shlex::split(back).unwrap(),
        [
            "exec",
            "env",
            "-u",
            "TMUX",
            "-u",
            "TMUX_PANE",
            "tmux",
            "-S",
            "/tmp/a socket/default",
            "attach-session",
            "-t",
            "$4"
        ]
    );
}

#[test]
fn target_identifiers_round_trip() {
    let target = TmuxTarget {
        host: "topo".to_owned(),
        name: "agent:review".to_owned(),
    };
    assert_eq!(target.id(), "topo:tmux:agent:review");
    assert_eq!(parse_target(&target.id()), Ok(target));
    let error = parse_target("topo:codex:019f").expect_err("this names no tmux session");
    assert!(matches!(&error, TmuxError::InvalidSessionId(id) if id == "topo:codex:019f"));
    assert!(error.message().contains("topo:codex:019f"));
}

#[test]
fn rows_with_missing_or_wrong_fields_are_malformed() {
    assert!(matches!(
        parse_session("local", "fabric\t100\t200\t1"),
        Err(TmuxError::MalformedOutput(_))
    ));
    assert!(parse_session("local", "fabric\tx\t200\t1\t3").is_err());
    assert!(parse_session("local", "fabric\t100\t200\t4294967296\t3").is_err());
}

#[test]
fn the_inventory_shows_the_latest_activity_first() {
    let (program, arguments) = discover_command("local", "topo").expect("command");
    assert_eq!(program, "tmux");
    assert_eq!(arguments[0], "list-sessions");
    let sessions = discover(
        "topo",
        "laptop",
        &outcome(true, "old\t1\t5\t0\t1\n\nnew\t1\t9\t0\t1\n", ""),
    )
    .expect("the rows should parse");
    assert_eq!(
        sessions.iter().map(|s| s.id.as_str()).collect::<Vec<_>>(),
        ["topo:tmux:new", "topo:tmux:old"]
    );
    assert_eq!(
        discover("topo", "laptop", &outcome(false, "", "no server running on /tmp/x")),
        Ok(vec![])
    );
    assert!(discover("topo", "laptop", &outcome(false, "", "denied")).is_err());
}

#[test]
fn the_local_host_answers_to_its_name() {
    assert!(is_local("local", "laptop"));
    assert!(is_local("laptop", "laptop"));
    assert!(!is_local("topo", "laptop"));
    assert_eq!(
        local_hostname(Some("laptop".to_owned()), None),
        "laptop".to_owned()
    );
    assert_eq!(
        local_hostname(None, Some("box\n".to_owned())),
        "box".to_owned()
    );
    assert_eq!(local_hostname(None, None), "local".to_owned());
}

#[test]
fn a_failed_command_says_what_it_printed_or_else_its_status() {
    assert_eq!(failure_message(&outcome(false, "", " why \n")), "why");
    assert_eq!(failure_message(&outcome(false, "", "")), "exit status: 1");
}

#[test]
fn a_handover_that_failed_is_reported() {
    let handoff = attach("fabric", false, "laptop").expect("the target is valid");
    assert_eq!(handoff.program, "tmux");
    assert_eq!(handed_over(&handoff, true, "exit status: 0"), Ok(()));
    let error = handed_over(&handoff, false, "exit status: 1").expect_err("it failed");
    assert!(error.message().contains("exit status: 1"));
}

#[test]
fn captures_of_a_pane_are_cleaned() {
    assert_eq!(
        capture_pane("topo", "work", "%1", &outcome(true, "a\u{7}b\n\n", "")),
        Ok("ab".to_owned())
    );
    assert!(capture_pane("topo", "work", "%1", &outcome(false, "", "gone")).is_err());
}

#[test]
fn a_session_that_has_its_name_is_not_renamed() {
    assert_eq!(rename_session("local", "a", "a", "laptop"), Ok(None));
    assert_eq!(
        rename_session("local", "a", "b", "laptop"),
        Ok(Some(("tmux", words(&["rename-session", "-t", "a", "b"]))))
    );
    assert_eq!(
        renamed_session("local", "a", "b", &outcome(true, "", "")),
        Ok(())
    );
    assert!(renamed_session("local", "a", "b", &outcome(false, "", "taken")).is_err());
}

#[test]
fn the_client_is_named_by_the_environment_or_by_tmux() {
    assert_eq!(named_client(None), None);
    assert_eq!(named_client(Some(String::new())), None);
    assert_eq!(
        named_client(Some("/dev/pts/1".to_owned())),
        Some("/dev/pts/1".to_owned())
    );
    assert_eq!(
        origin_client(&outcome(true, "/dev/pts/2\n", "")),
        Ok("/dev/pts/2".to_owned())
    );
    assert!(origin_client(&outcome(false, "", "no client")).is_err());
}

#[test]
fn every_switch_names_the_client_of_the_popup() {
    assert_eq!(
        target_client(
            &words(&["select-pane", "-t", "switch-client", ";", "switch-client", "-t", "a"]),
            "/dev/pts/1"
        ),
        words(&[
            "select-pane",
            "-t",
            "switch-client",
            ";",
            "switch-client",
            "-c",
            "/dev/pts/1",
            "-t",
            "a"
        ])
    );
}

#[test]
fn a_remote_session_replaces_the_client_of_the_popup() {
    let plan = plan_attachment(
        "ssh",
        &words(&["-t", "--", "topo", "tmux attach"]),
        Some("/dev/pts/1".to_owned()),
        true,
    );
    assert_eq!(
        plan,
        Ok(AttachmentPlan::ReplaceClient {
            client: "/dev/pts/1".to_owned(),
            arguments: words(&["-t", "--", "topo", "bash -lc 'tmux attach'"]),
        })
    );
    assert!(plan_attachment("ssh", &words(&["a\0b"]), None, false).is_err());
}

#[test]
fn a_client_is_found_by_its_name() {
    let listing = "/dev/pts/1\t$4\t/tmp/a\n/dev/pts/2\t$9\t/tmp/b\n";
    assert_eq!(
        find_client(listing, "/dev/pts/2"),
        Some(("$9".to_owned(), "/tmp/b".to_owned()))
    );
    assert_eq!(find_client(listing, "/dev/pts/3"), None);
    let error = replace_client("/dev/pts/3", &words(&["-t"]), true, listing)
        .expect_err("the client is gone");
    assert!(error.message().contains("is no longer attached"));
    let (program, arguments) =
        replace_client("/dev/pts/2", &words(&["-t"]), true, listing).expect("command");
    assert_eq!(program, "tmux");
    assert_eq!(&arguments[..4], ["detach-client", "-t", "/dev/pts/2", "-E"]);
}

#[test]
fn a_word_with_a_zero_byte_cannot_be_quoted() {
    let target = TmuxTarget {
        host: "topo".to_owned(),
        name: "a\0b".to_owned(),
    };
    let error = attach_command(&target, false, "laptop").expect_err("it cannot be quoted");
    assert!(matches!(error, TmuxError::Quote(_)));
    assert!(error.message().contains("nul byte"));
}

#[test]
fn a_resumed_command_runs_in_a_login_shell() {
    let handoff = resume_command("local", "rc-x", "/w", "agy --conversation 1", true, "laptop")
        .expect("the command can be quoted");
    assert_eq!(handoff.program, "tmux");
    assert_eq!(&handoff.arguments[..2], ["new-session", "-Ad"]);
    assert_eq!(&handoff.arguments[7..], [";", "switch-client", "-t", "rc-x"]);
}

#[test]
fn the_first_malformed_row_is_reported() {
    let outcome = CommandOutcome {
        success: true,
        status: "exit status: 0".to_owned(),
        stdout: "fabric\t100\t200\t1\t3\n\nfirst wrong\nsecond wrong\n".to_owned(),
        stderr: String::new(),
    };
    assert_eq!(
        discover("local", "topo", &outcome),
        Err(TmuxError::MalformedOutput("first wrong".to_owned()))
    );
}
