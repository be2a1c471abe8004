use rollcall::domain::{
    merge_observed_activity, same_binding, Activity, AgentKind, RuntimeOwner, Session, SessionKey,
    TmuxBinding,
};

#[test]
fn stable_session_ids_include_the_agent_boundary() {
    let key = SessionKey {
        host: "topo".to_owned(),
        agent: AgentKind::Codex,
        native_session_id: "019f".to_owned(),
    };

    assert_eq!(key.stable_id(), "topo:codex:019f");
    assert_eq!(
        SessionKey::parse("topo:codex:019f"),
        Some(key),
        "stable IDs should round-trip"
    );
    assert!(SessionKey::parse("topo:unknown:019f").is_none());
}

#[test]
fn pi_omp_and_hermes_have_distinct_round_tripping_keys() {
    for agent in [AgentKind::Pi, AgentKind::Omp, AgentKind::Hermes] {
        let key = SessionKey {
            host: "topo".to_owned(),
            agent,
            native_session_id: "main/session-1".to_owned(),
        };
        assert_eq!(SessionKey::parse(&key.stable_id()), Some(key));
    }
    assert_ne!(AgentKind::parse("pi"), AgentKind::parse("omp"));
}

#[test]
fn every_agent_has_a_name_of_its_own() {
    let agents = [
        AgentKind::Codex,
        AgentKind::Omp,
        AgentKind::Pi,
        AgentKind::Hermes,
        AgentKind::Agy,
    ];
    for agent in agents {
        assert_eq!(AgentKind::parse(agent.as_str()), Some(agent));
    }
    assert_eq!(AgentKind::parse("tmux"), None);
    assert_eq!(AgentKind::default(), AgentKind::Codex);
}

#[test]
fn native_identifiers_may_hold_colons_but_no_part_may_be_empty() {
    let key = SessionKey::parse("topo:omp:a:b").expect("a native identifier may hold colons");
    assert_eq!(key.native_session_id, "a:b");
    assert_eq!(key.stable_id(), "topo:omp:a:b");
    assert_eq!(SessionKey::parse(":codex:019f"), None);
    assert_eq!(SessionKey::parse("topo:codex:"), None);
    assert_eq!(SessionKey::parse("topo:codex"), None);
}

#[test]
fn a_session_is_keyed_by_host_agent_and_native_identifier() {
    let session = Session {
        id: "anything".to_owned(),
        host: "topo".to_owned(),
        agent: AgentKind::Hermes,
        native_session_id: "7".to_owned(),
        title: String::new(),
        cwd: String::new(),
        source: String::new(),
        activity: Activity::Unknown,
        last_message: String::new(),
        last_interaction_unix_seconds: 0,
        updated_unix_seconds: 0,
        runtime: RuntimeOwner::Resumable,
        tmux: None,
    };
    assert_eq!(session.key().stable_id(), "topo:hermes:7");
    assert_eq!(session.clone(), session);
}

#[test]
fn only_finished_turns_settle_on_their_own() {
    assert!(Activity::Completed.can_auto_settle());
    assert!(!Activity::Working.can_auto_settle());
    assert!(!Activity::WaitingApproval.can_auto_settle());
    assert!(!Activity::WaitingInput.can_auto_settle());
    assert!(!Activity::Failed.can_auto_settle());
}

#[test]
fn merging_the_same_observation_again_changes_nothing() {
    let all = [
        Activity::Working,
        Activity::WaitingApproval,
        Activity::WaitingInput,
        Activity::Completed,
        Activity::Failed,
        Activity::Unknown,
    ];
    for current in all {
        for observed in all {
            let once = merge_observed_activity(current, observed);
            assert_eq!(merge_observed_activity(once, observed), once);
        }
    }
}

#[test]
fn bindings_are_the_same_where_session_and_pane_are() {
    let binding = |session: &str, pane: &str| {
        Some(TmuxBinding {
            session: session.to_owned(),
            pane: pane.to_owned(),
        })
    };
    assert!(same_binding(&None, &None));
    assert!(same_binding(&binding("a", "%1"), &binding("a", "%1")));
    assert!(!same_binding(&binding("a", "%1"), &binding("a", "%2")));
    assert!(!same_binding(&binding("a", "%1"), &None));
}
