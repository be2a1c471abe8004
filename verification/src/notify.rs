//! Notifications of changes that ask for the user's attention.

use vstd::prelude::*;

use crate::store::{SessionTransition, SessionTransitionKind};
use crate::text::{decimal, decimal_of};

verus! {

/// The environment variable that holds the command which shows a notification.
pub const NOTIFY_COMMAND_ENV: &'static str = "ROLLCALL_NOTIFY_COMMAND";

/// What the user is notified of.
#[derive(Debug, Eq, PartialEq)]
pub struct Notification {
    pub kind: &'static str,
    pub title: String,
    pub body: String,
    pub host: String,
    pub session_id: Option<String>,
}

/// The kind, the title and the closing words of a notification of a session's change.
pub open spec fn transition_words(kind: SessionTransitionKind) -> (
    Seq<char>,
    Seq<char>,
    Seq<char>,
) {
    match kind {
        SessionTransitionKind::Completed => ("completed"@, "Turn complete"@, "is ready"@),
        SessionTransitionKind::Approval => (
            "approval"@,
            "Approval requested"@,
            "needs approval"@,
        ),
        SessionTransitionKind::Input => ("input"@, "Input requested"@, "needs input"@),
        SessionTransitionKind::Failed => ("failed"@, "Session failed"@, "needs attention"@),
    }
}

/// The notification of a session's change.
pub fn notification_for_transition(transition: &SessionTransition) -> (r: Notification)
    ensures
        r.kind@ == transition_words(transition.kind).0,
        r.title@ == "Rollcall: "@ + transition_words(transition.kind).1,
        r.body@ == transition.title@ + " on "@ + transition.host@ + " "@ + transition_words(
            transition.kind,
        ).2 + "."@,
        r.host@ == transition.host@,
        r.session_id matches Some(id) && id@ == transition.session_id@,
{
    let (kind, words, action): (&'static str, &'static str, &'static str) = match transition.kind {
        SessionTransitionKind::Completed => ("completed", "Turn complete", "is ready"),
        SessionTransitionKind::Approval => ("approval", "Approval requested", "needs approval"),
        SessionTransitionKind::Input => ("input", "Input requested", "needs input"),
        SessionTransitionKind::Failed => ("failed", "Session failed", "needs attention"),
    };
    let mut title: String = "Rollcall: ".to_owned();
    title.append(words);
    let mut body: String = transition.title.clone();
    body.append(" on ");
    body.append(transition.host.as_str());
    body.append(" ");
    body.append(action);
    body.append(".");
    Notification {
        kind,
        title,
        body,
        host: transition.host.clone(),
        session_id: Some(transition.session_id.clone()),
    }
}

/// The notification of a session's change.
pub fn session_transition(transition: &SessionTransition) -> (r: Notification)
    ensures
        r.kind@ == transition_words(transition.kind).0,
        r.title@ == "Rollcall: "@ + transition_words(transition.kind).1,
        r.body@ == transition.title@ + " on "@ + transition.host@ + " "@ + transition_words(
            transition.kind,
        ).2 + "."@,
        r.host@ == transition.host@,
        r.session_id matches Some(id) && id@ == transition.session_id@,
{
    notification_for_transition(transition)
}

/// The notification of a host that can be reached again.
pub fn host_recovered(host: &str, session_count: usize) -> (r: Notification)
    ensures
        r.kind@ == "hostRecovered"@,
        r.title@ == "Rollcall: "@ + host@ + " is back online"@,
        r.body@ == "Reconciled "@ + decimal(session_count as nat) + " sessions."@,
        r.host@ == host@,
        r.session_id is None,
{
    let mut title: String = "Rollcall: ".to_owned();
    title.append(host);
    title.append(" is back online");
    let mut body: String = "Reconciled ".to_owned();
    body.append(decimal_of(session_count as u64).as_str());
    body.append(" sessions.");
    Notification { kind: "hostRecovered", title, body, host: host.to_owned(), session_id: None }
}

/// How a notification is shown.
#[derive(Debug, Eq, PartialEq)]
pub enum Delivery {
    /// By the terminal's bell.
    Bell,
    /// Not at all.
    Silent,
    /// By a shell command, which is told of the notification in its environment.
    Command { command: String, environment: Vec<(&'static str, String)> },
}

/// The environment in which the user's command is run.
pub open spec fn notification_environment(notification: Notification) -> Seq<
    (Seq<char>, Seq<char>),
> {
    seq![
        ("ROLLCALL_NOTIFICATION_KIND"@, notification.kind@),
        ("ROLLCALL_NOTIFICATION_TITLE"@, notification.title@),
        ("ROLLCALL_NOTIFICATION_BODY"@, notification.body@),
        ("ROLLCALL_NOTIFICATION_HOST"@, notification.host@),
        (
            "ROLLCALL_NOTIFICATION_SESSION_ID"@,
            match notification.session_id {
                Some(id) => id@,
                None => Seq::empty(),
            },
        ),
    ]
}

/// Names and values as text.
pub open spec fn variable_views(variables: Seq<(&'static str, String)>) -> Seq<
    (Seq<char>, Seq<char>),
> {
    variables.map_values(|variable: (&'static str, String)| (variable.0@, variable.1@))
}

/// Decides how a notification is shown, from the command in the environment: without one by
/// the bell, with an empty one not at all, and else by the command.
pub fn dispatch(notification: Notification, command: Option<String>) -> (r: Delivery)
    ensures
        match command {
            None => r is Bell,
            Some(text) => if text@.len() == 0 {
                r is Silent
            } else {
                r is Command && r->command@ == text@ && variable_views(r->environment@)
                    == notification_environment(notification)
            },
        },
{
    match command {
        None => Delivery::Bell,
        Some(command) => {
            if command.as_str().is_empty() {
                return Delivery::Silent;
            }
            let ghost shown = notification;
            let session_id: String = match notification.session_id {
                Some(id) => id,
                None => String::new(),
            };
            let mut environment: Vec<(&'static str, String)> = Vec::new();
            environment.push(("ROLLCALL_NOTIFICATION_KIND", notification.kind.to_owned()));
            environment.push(("ROLLCALL_NOTIFICATION_TITLE", notification.title));
            environment.push(("ROLLCALL_NOTIFICATION_BODY", notification.body));
            environment.push(("ROLLCALL_NOTIFICATION_HOST", notification.host));
            environment.push(("ROLLCALL_NOTIFICATION_SESSION_ID", session_id));
            assert(variable_views(environment@) =~= notification_environment(shown));
            Delivery::Command { command, environment }
        },
    }
}

} // verus!
