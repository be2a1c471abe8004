use rollcall::agents::AgentError;
use rollcall::hosts::HostDiscoveryError;
use rollcall::picker::popup::{popup_arguments, popup_selection, selection_text, transition_line};
use rollcall::picker::view::theme::Theme;
use rollcall::picker::PickerError;
use rollcall::store::{SessionTransition, SessionTransitionKind, StoreError};
use rollcall::tmux::{self, AttachmentPlan};

const CLIENT: &str = "/dev/pts/origin";

/// Opens what a popup left, and tells what is run for it.
fn popup(selection: &str, success: bool) -> Result<Option<String>, PickerError> {
    let content = if selection.is_empty() {
        String::new()
    } else {
        format!("\"{selection}\"")
    };
    let Some(id) = popup_selection(success, "exit status: 1", &content)? else {
        return Ok(None);
    };
    let handoff = tmux::attach(&id, true, "laptop").expect("the target is valid");
    let plan = tmux::plan_attachment(
        handoff.program,
        &handoff.arguments,
        Some(CLIENT.to_owned()),
        true,
    )
    .expect("the words can be quoted");
    let (program, arguments) = match plan {
        AttachmentPlan::Run { program, arguments } => (program, arguments),
        AttachmentPlan::ReplaceClient { client, arguments } => tmux::replace_client(
            &client,
            &arguments,
            true,
            "/dev/pts/origin\t$4\t/run/user/1000/tmux/default\n\
             /dev/pts/other\t$9\t/run/user/1000/tmux/default\n",
        )
        .expect("the client is attached"),
    };
    Ok(Some(format!("{program} {}", arguments.join(" "))))
}

fn arguments(theme: Theme) -> Vec<String> {
    popup_arguments(CLIENT, theme, "/tmp/selection", "/bin/roll call", "all", 50)
        .expect("the words can be quoted")
}

#[test]
fn popup_closes_before_switching_only_the_originating_client() {
    assert_eq!(
        &arguments(Theme::Terminal)[..4],
        ["display-popup", "-E", "-c", CLIENT]
    );
    assert!(arguments(Theme::Terminal).contains(&format!("ROLLCALL_TMUX_CLIENT={CLIENT}")));
    let run = popup("local:tmux:chosen", true)
        .expect("the popup succeeded")
        .expect("a session was chosen");
    assert_eq!(run, format!("tmux switch-client -c {CLIENT} -t chosen"));
}

#[test]
fn remote_selection_replaces_the_origin_client_without_nesting() {
    let run = popup("remote-host:tmux:chosen", true)
        .expect("the popup succeeded")
        .expect("a session was chosen");
    assert!(
        run.contains(
            "detach-client -t /dev/pts/origin -E env -u TMUX -u TMUX_PANE ssh -t -- remote-host"
        ),
        "{run}"
    );
    assert_eq!(run.matches("bash -lc").count(), 1, "{run}");
    assert!(
        run.contains("tmux -S /run/user/1000/tmux/default attach-session -t '$4'"),
        "{run}"
    );
    assert!(!run.contains("new-window") && !run.contains("switch-client"));
}

#[test]
fn cancellation_never_attaches_or_opens_a_window() {
    assert_eq!(popup("", true), Ok(None));
    assert_eq!(popup_selection(true, "", " \n"), Ok(None));
}

#[test]
fn failed_popup_never_attaches() {
    let error = popup("local:tmux:chosen", false).expect_err("the popup failed");
    assert_eq!(error, PickerError::PopupFailed("exit status: 1".to_owned()));
    assert_eq!(error.message(), "tmux popup failed: exit status: 1");
}

#[test]
fn popup_forwards_the_selected_theme_to_the_tmux_server() {
    for (value, expected) in [
        (None, "terminal"),
        (Some("terminal"), "terminal"),
        (Some(" EVERFOREST "), "everforest"),
        (Some("tmux"), "tmux"),
    ] {
        let theme = Theme::parse(value).expect("the theme is known");
        let lines = arguments(theme).join("\n");
        assert!(
            lines.contains(&format!("-e\nROLLCALL_THEME={expected}\n")),
            "{lines}"
        );
    }
}

#[test]
fn the_popup_runs_the_picker() {
    let arguments = arguments(Theme::Terminal);
    assert_eq!(&arguments[10..14], ["-w", "90%", "-h", "80%"]);
    assert_eq!(
        shlex::split(&arguments[14]).expect("words"),
        ["/bin/roll call", "pick", "--host", "all", "--limit", "50"]
    );
    assert!(popup_arguments(CLIENT, Theme::Terminal, "/s", "a\0b", "all", 1).is_err());
}

#[test]
fn a_selection_that_is_no_text_is_refused() {
    assert!(matches!(
        popup_selection(true, "", "7"),
        Err(PickerError::PopupFailed(_))
    ));
}

#[test]
fn transitions_are_told_in_fields_between_tabs() {
    let line = transition_line(&SessionTransition {
        session_id: "topo:pi:a".to_owned(),
        title: "a\tb\r\nc".to_owned(),
        host: "topo".to_owned(),
        kind: SessionTransitionKind::Failed,
        observed_at_unix_seconds: 7,
    });
    assert_eq!(line, "7\tfailed\ttopo\ta b  c\ttopo:pi:a");
}

#[test]
fn picker_errors_say_what_failed() {
    assert_eq!(
        PickerError::Io("closed".to_owned()).message(),
        "terminal picker failed: closed"
    );
    assert_eq!(
        PickerError::Store(StoreError::MissingStateDirectory).message(),
        StoreError::MissingStateDirectory.message()
    );
    assert_eq!(
        PickerError::HostDiscovery(HostDiscoveryError::MissingHome).message(),
        HostDiscoveryError::MissingHome.message()
    );
    let agent = AgentError::InvalidSessionId("x".to_owned());
    let words = agent.message();
    assert_eq!(PickerError::Agent(agent).message(), words);
}

#[test]
fn what_the_picker_leaves_is_what_is_opened() {
    for id in ["topo:codex:019f", "a \"quoted\" id\n", "你好", ""] {
        assert_eq!(
            popup_selection(true, "exit status: 0", &selection_text(id)),
            Ok(Some(id.to_owned()))
        );
    }
    assert_eq!(selection_text("a\"b"), "\"a\\\"b\"");
}
