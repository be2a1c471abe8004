use rollcall::agents::{
    adapter_results, attach, codex_sessions, discover, discover_detailed, enrich_details,
    native_agents, observe_live, observed_host, qualify_live_observations,
    resume, sort_and_limit_sessions, AgentError, NativeObservation, Opening,
};
use rollcall::codex::{CodexError, ReadTurn};
use rollcall::domain::{Activity, AgentKind, LiveObservation, RuntimeOwner, Session};
use rollcall::keyed::StringMap;
use rollcall::native::NativeError;
use rollcall::omp::OmpError;

fn session(agent: AgentKind, native_id: &str, recency: u64, updated: u64) -> Session {
    Session {
        id: format!("local:{}:{native_id}", agent.as_str()),
        host: "local".to_owned(),
        agent,
        native_session_id: native_id.to_owned(),
        title: native_id.to_owned(),
        cwd: "/work".to_owned(),
        source: agent.as_str().to_owned(),
        activity: Activity::Completed,
        last_message: String::new(),
        last_interaction_unix_seconds: recency,
        updated_unix_seconds: updated,
        runtime: RuntimeOwner::Resumable,
        tmux: None,
    }
}

fn working() -> LiveObservation {
    LiveObservation {
        activity: Activity::Working,
        runtime: RuntimeOwner::ExternalFrontend,
        tmux: None,
    }
}

fn one(native_id: &str) -> StringMap<LiveObservation> {
    let mut map = StringMap::new();
    map.insert(native_id.to_owned(), working());
    map
}

fn ids(sessions: &[Session]) -> Vec<&str> {
    sessions
        .iter()
        .map(|s| s.native_session_id.as_str())
        .collect::<Vec<_>>()
}

#[test]
fn newest_sessions_survive_the_limit_regardless_of_agent() {
    // Each adapter supplies its own newest-first page; Codex is appended first.
    let mut sessions = vec![
        session(AgentKind::Codex, "codex-new", 200, 200),
        session(AgentKind::Codex, "codex-old", 100, 100),
        session(AgentKind::Omp, "omp-new", 300, 300),
        session(AgentKind::Omp, "omp-old", 50, 50),
        session(AgentKind::Pi, "pi-new", 500, 500),
        session(AgentKind::Hermes, "main/hermes-new", 400, 400),
    ];
    sort_and_limit_sessions(&mut sessions, Some(4));
    assert_eq!(
        ids(&sessions),
        ["pi-new", "main/hermes-new", "omp-new", "codex-new"]
    );
}

#[test]
fn unlimited_inventory_uses_native_recency_before_metadata_updates() {
    let mut sessions = vec![
        session(AgentKind::Codex, "metadata-only", 100, 900),
        session(AgentKind::Omp, "newest", 300, 300),
        session(AgentKind::Codex, "same-recency", 300, 400),
    ];
    sort_and_limit_sessions(&mut sessions, None);
    assert_eq!(ids(&sessions), ["same-recency", "newest", "metadata-only"]);
    sort_and_limit_sessions(&mut sessions, Some(0));
    assert!(sessions.is_empty());
}

#[test]
fn invalid_or_unknown_agent_ids_fail_at_the_dispatch_boundary() {
    assert!(matches!(
        attach("topo:unknown:019f"),
        Err(AgentError::InvalidSessionId(_))
    ));
    assert!(matches!(
        attach("not-a-session-id"),
        Err(AgentError::InvalidSessionId(_))
    ));
}

#[test]
fn live_observations_are_keyed_by_the_stable_control_plane_id() {
    let observations = qualify_live_observations("topo", AgentKind::Codex, &one("019f"));

    assert!(observations.contains_key("topo:codex:019f"));
    assert!(!observations.contains_key("019f"));
}

#[test]
fn dispatch_follows_the_agent_of_the_identifier() {
    assert_eq!(
        attach("topo:codex:019f"),
        Ok(Opening::Codex {
            host: "topo".to_owned(),
            native_session_id: "019f".to_owned(),
        })
    );
    assert_eq!(
        attach("topo:omp:019f"),
        Ok(Opening::Omp {
            host: "topo".to_owned(),
            native_session_id: "019f".to_owned(),
        })
    );
    for (open, force_resume) in [(attach("topo:pi:a"), false), (resume("topo:pi:a"), true)] {
        assert_eq!(
            open,
            Ok(Opening::Native {
                host: "topo".to_owned(),
                agent: AgentKind::Pi,
                native_session_id: "a".to_owned(),
                force_resume,
            })
        );
    }
    assert!(matches!(
        resume("nothing"),
        Err(AgentError::InvalidSessionId(id)) if id == "nothing"
    ));
}

#[test]
fn one_adapter_that_answers_is_enough_for_an_inventory() {
    let found = discover(
        vec![
            Err(AgentError::from(CodexError::Protocol("first".to_owned()))),
            Ok(vec![session(AgentKind::Omp, "a", 1, 1)]),
            Err(AgentError::from(NativeError::Io("last".to_owned()))),
        ],
        None,
    )
    .expect("one adapter answered");
    assert_eq!(ids(&found), ["a"]);
}

#[test]
fn an_inventory_in_which_every_adapter_failed_reports_the_first() {
    let error = discover(
        vec![
            Err(AgentError::from(CodexError::Protocol("first".to_owned()))),
            Err(AgentError::from(OmpError::Json("second".to_owned()))),
        ],
        Some(3),
    )
    .expect_err("no adapter answered");
    assert_eq!(
        error,
        AgentError::Codex(CodexError::Protocol("first".to_owned()))
    );
}

#[test]
fn details_enrich_only_the_sessions_of_one_agent() {
    let mut details = StringMap::new();
    details.insert(
        "a".to_owned(),
        vec![ReadTurn {
            status: "completed".to_owned(),
            items: vec![
                "{\"type\":\"agentMessage\",\"text\":\"all done\"}".to_owned(),
            ],
        }],
    );
    let found = discover_detailed(
        vec![
            Ok(vec![session(AgentKind::Codex, "a", 2, 2)]),
            Ok(vec![session(AgentKind::Omp, "a", 1, 1)]),
        ],
        None,
        Ok(details),
    )
    .expect("the adapters answered");
    assert_eq!(found[0].agent, AgentKind::Codex);
    assert_eq!(found[0].last_message, "all done");
    assert_eq!(found[1].last_message, "");
}

#[test]
fn details_that_cannot_be_read_are_a_failure_where_they_are_asked_for() {
    let failure = || Err(CodexError::Protocol("closed".to_owned()));
    let before = vec![
        session(AgentKind::Codex, "a", 2, 2),
        session(AgentKind::Omp, "b", 1, 1),
    ];
    assert_eq!(codex_sessions(&before), [before[0].clone()]);
    let mut sessions = before.clone();
    assert_eq!(
        enrich_details(&mut sessions, failure()),
        Err(AgentError::Codex(CodexError::Protocol("closed".to_owned())))
    );
    assert_eq!(sessions, before);

    let mut others = vec![session(AgentKind::Omp, "b", 1, 1)];
    assert!(codex_sessions(&others).is_empty());
    assert_eq!(enrich_details(&mut others, failure()), Ok(()));
    assert!(discover_detailed(vec![Ok(others.clone())], None, failure()).is_ok());
    assert!(discover_detailed(vec![Ok(before)], None, failure()).is_err());
}

#[test]
fn the_adapters_count_in_a_fixed_order() {
    assert_eq!(
        native_agents(),
        [AgentKind::Pi, AgentKind::Hermes, AgentKind::Agy]
    );
    let results = adapter_results(
        Ok(true),
        Ok(vec![session(AgentKind::Codex, "c", 1, 1)]),
        Err(OmpError::Json("broken".to_owned())),
        Ok(vec![session(AgentKind::Pi, "p", 1, 1)]),
        Err(NativeError::Io("broken".to_owned())),
        Ok(vec![session(AgentKind::Agy, "g", 1, 1)]),
    );
    assert_eq!(
        results,
        [
            Ok(vec![session(AgentKind::Codex, "c", 1, 1)]),
            Err(AgentError::Omp(OmpError::Json("broken".to_owned()))),
            Ok(vec![session(AgentKind::Pi, "p", 1, 1)]),
            Err(AgentError::Native(NativeError::Io("broken".to_owned()))),
            Ok(vec![session(AgentKind::Agy, "g", 1, 1)]),
        ]
    );
}

#[test]
fn an_agent_that_is_not_installed_finds_nothing() {
    let absent = |available| {
        adapter_results(
            available,
            Err(CodexError::Protocol("not asked".to_owned())),
            Ok(vec![]),
            Ok(vec![]),
            Ok(vec![]),
            Ok(vec![]),
        )
    };
    assert_eq!(discover(absent(Ok(false)), None), Ok(vec![]));
    let unknown = absent(Err(CodexError::Protocol("no answer".to_owned())));
    assert_eq!(
        discover(unknown, None),
        Err(AgentError::Codex(CodexError::Protocol("no answer".to_owned())))
    );
}

#[test]
fn observations_of_every_adapter_are_kept_under_stable_identifiers() {
    let live = observe_live(
        "topo",
        Ok(one("c")),
        Err(OmpError::Json("broken".to_owned())),
        vec![
            NativeObservation {
                agent: AgentKind::Pi,
                result: Ok(one("p")),
            },
            NativeObservation {
                agent: AgentKind::Agy,
                result: Ok(StringMap::new()),
            },
        ],
    )
    .expect("the adapters answered");
    assert_eq!(live.len(), 2);
    assert!(live.contains_key("topo:codex:c"));
    assert!(live.contains_key("topo:pi:p"));
}

#[test]
fn observation_fails_where_the_first_two_adapters_or_a_later_one_did() {
    let neither = observe_live(
        "topo",
        Err(CodexError::Protocol("no".to_owned())),
        Err(OmpError::Json("no".to_owned())),
        vec![],
    );
    assert!(matches!(neither, Err(AgentError::Codex(_))));
    let later = observe_live(
        "topo",
        Ok(one("c")),
        Ok(one("o")),
        vec![NativeObservation {
            agent: AgentKind::Pi,
            result: Err(NativeError::Io("no".to_owned())),
        }],
    );
    assert!(matches!(later, Err(AgentError::Native(_))));
}

#[test]
fn the_local_host_is_observed_under_its_name() {
    assert_eq!(observed_host("local", "laptop"), "laptop");
    assert_eq!(observed_host("topo", "laptop"), "topo");
}

#[test]
fn agent_errors_carry_the_words_of_their_adapter() {
    assert!(AgentError::InvalidSessionId("x".to_owned())
        .message()
        .contains('x'));
    let codex = CodexError::MissingSession("topo:codex:9".to_owned());
    let words = codex.message();
    assert_eq!(AgentError::from(codex).message(), words);
    let omp = OmpError::CommandFailed("gone".to_owned());
    let words = omp.message();
    assert_eq!(AgentError::from(omp).message(), words);
    let native = NativeError::Command("gone".to_owned());
    let words = native.message();
    assert_eq!(AgentError::from(native).message(), words);
}
