use rollcall::notify::{
    dispatch, host_recovered, notification_for_transition, session_transition, Delivery,
    Notification, NOTIFY_COMMAND_ENV,
};
use rollcall::store::{SessionTransition, SessionTransitionKind};

fn transition(kind: SessionTransitionKind) -> SessionTransition {
    SessionTransition {
        session_id: "topo:codex:019f".to_owned(),
        title: "Rollcall notifications".to_owned(),
        host: "topo".to_owned(),
        kind,
        observed_at_unix_seconds: 100,
    }
}

#[test]
fn completion_notifications_include_stable_hook_metadata() {
    assert_eq!(
        notification_for_transition(&transition(SessionTransitionKind::Completed)),
        Notification {
            kind: "completed",
            title: "Rollcall: Turn complete".to_owned(),
            body: "Rollcall notifications on topo is ready.".to_owned(),
            host: "topo".to_owned(),
            session_id: Some("topo:codex:019f".to_owned()),
        }
    );
}

#[test]
fn attention_notifications_have_distinct_kinds() {
    assert_eq!(
        notification_for_transition(&transition(SessionTransitionKind::Approval)).kind,
        "approval"
    );
    assert_eq!(
        notification_for_transition(&transition(SessionTransitionKind::Input)).kind,
        "input"
    );
    assert_eq!(
        notification_for_transition(&transition(SessionTransitionKind::Failed)).kind,
        "failed"
    );
}

#[test]
fn a_notification_rings_where_no_command_is_set() {
    assert_eq!(NOTIFY_COMMAND_ENV, "ROLLCALL_NOTIFY_COMMAND");
    let notification = session_transition(&transition(SessionTransitionKind::Completed));
    assert_eq!(dispatch(notification, None), Delivery::Bell);
    let notification = session_transition(&transition(SessionTransitionKind::Completed));
    assert_eq!(dispatch(notification, Some(String::new())), Delivery::Silent);
}

#[test]
fn a_command_receives_the_notification_in_its_environment() {
    let notification = host_recovered("topo", 3);
    let Delivery::Command {
        command,
        environment,
    } = dispatch(notification, Some("notify-send".to_owned()))
    else {
        panic!("a command should be run");
    };
    assert_eq!(command, "notify-send");
    assert_eq!(
        environment,
        [
            ("ROLLCALL_NOTIFICATION_KIND", "hostRecovered".to_owned()),
            (
                "ROLLCALL_NOTIFICATION_TITLE",
                "Rollcall: topo is back online".to_owned()
            ),
            (
                "ROLLCALL_NOTIFICATION_BODY",
                "Reconciled 3 sessions.".to_owned()
            ),
            ("ROLLCALL_NOTIFICATION_HOST", "topo".to_owned()),
            ("ROLLCALL_NOTIFICATION_SESSION_ID", String::new()),
        ]
    );
}
