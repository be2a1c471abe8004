use rollcall::domain::{Activity, AgentKind, RuntimeOwner, Session};
use rollcall::store::{
    attention_transition, state_path, to_stored_seconds, ArchiveReason, SessionTransitionKind,
    Store, StoreError, DEFAULT_STALE_AFTER_SECONDS,
};

const NOW: i64 = 2_000_000;

fn session(title: &str) -> Session {
    Session {
        id: "topo:codex:019f".to_owned(),
        host: "topo".to_owned(),
        agent: AgentKind::Codex,
        native_session_id: "019f".to_owned(),
        title: title.to_owned(),
        cwd: "/work/chan".to_owned(),
        source: "cli".to_owned(),
        activity: Activity::Completed,
        last_message: "done".to_owned(),
        last_interaction_unix_seconds: 100,
        updated_unix_seconds: 100,
        runtime: RuntimeOwner::Resumable,
        tmux: None,
    }
}

#[test]
fn snapshots_remain_archived_when_native_metadata_refreshes() {
    let mut store = Store::new();

    store.record(&vec![session("first")], NOW);
    store
        .set_archived("topo:codex:019f", true, NOW)
        .expect("session should archive");
    store.record(&vec![session("updated")], NOW);

    assert!(store.load(false).is_empty());
    assert_eq!(store.load(true)[0].title, "updated");
}

#[test]
fn archived_sessions_can_be_restored() {
    let mut store = Store::new();

    store.record(&vec![session("saved")], NOW);
    store
        .set_archived("topo:codex:019f", true, NOW)
        .expect("session should archive");
    store
        .set_archived("topo:codex:019f", false, NOW)
        .expect("session should restore");

    assert_eq!(store.load(false).len(), 1);
    assert!(store.load(true).is_empty());
}

#[test]
fn legacy_unnamed_omp_subagents_are_hidden_from_inventory_views() {
    let mut store = Store::new();
    let mut legacy = session("");
    legacy.id = "topo:omp:legacy".to_owned();
    legacy.agent = AgentKind::Omp;
    legacy.native_session_id = "legacy".to_owned();
    legacy.source = "omp".to_owned();

    store.record(&vec![session("visible"), legacy], NOW);

    assert_eq!(store.load(false).len(), 1);
    assert_eq!(store.load_history()[0].session.title, "visible");
}

#[test]
fn working_to_completed_creates_one_persisted_unread_transition() {
    let mut store = Store::new();
    let mut candidate = session("turn");
    candidate.activity = Activity::Working;
    assert!(store.record(&vec![candidate.clone()], NOW).is_empty());

    candidate.activity = Activity::Completed;
    let transitions = store.record(&vec![candidate.clone()], NOW);

    assert_eq!(transitions.len(), 1);
    assert_eq!(transitions[0].kind, SessionTransitionKind::Completed);
    assert_eq!(store.unread_session_ids(), [candidate.id.clone()]);
    assert!(store.record(&vec![candidate.clone()], NOW).is_empty());
    assert!(store.acknowledge(&candidate.id));
    assert!(store.unread_session_ids().is_empty());
    assert!(!store.acknowledge(&candidate.id));
}

#[test]
fn attention_transitions_cover_approval_input_failure_and_completion() {
    let mut previous = session("previous");
    previous.activity = Activity::Working;
    let mut current = previous.clone();

    current.activity = Activity::WaitingApproval;
    assert_eq!(
        attention_transition(&previous, &current),
        Some(SessionTransitionKind::Approval)
    );
    previous.activity = Activity::WaitingApproval;
    current.activity = Activity::WaitingInput;
    assert_eq!(
        attention_transition(&previous, &current),
        Some(SessionTransitionKind::Input)
    );
    previous.activity = Activity::WaitingInput;
    current.activity = Activity::Failed;
    assert_eq!(
        attention_transition(&previous, &current),
        Some(SessionTransitionKind::Failed)
    );
    previous.activity = Activity::WaitingApproval;
    current.activity = Activity::Completed;
    assert_eq!(
        attention_transition(&previous, &current),
        Some(SessionTransitionKind::Completed)
    );
}

#[test]
fn unread_completed_sessions_do_not_auto_settle_until_acknowledged() {
    let mut store = Store::new();
    let mut candidate = session("attention");
    candidate.activity = Activity::Working;
    candidate.last_interaction_unix_seconds = 100;
    store.record(&vec![candidate.clone()], NOW);
    candidate.activity = Activity::Completed;
    store.record(&vec![candidate.clone()], NOW);

    assert_eq!(store.auto_settle_stale_at(1_000_000, 60), 0);
    store.acknowledge(&candidate.id);
    assert_eq!(store.auto_settle_stale_at(1_000_000, 60), 1);
}

#[test]
fn manually_archived_sessions_do_not_emit_new_attention() {
    let mut store = Store::new();
    let mut candidate = session("archived");
    candidate.activity = Activity::Working;
    store.record(&vec![candidate.clone()], NOW);
    store
        .set_archived(&candidate.id, true, NOW)
        .expect("session should archive");
    candidate.activity = Activity::Completed;

    assert!(store.record(&vec![candidate], NOW).is_empty());
    assert!(store.unread_session_ids().is_empty());
}

#[test]
fn auto_settled_sessions_wake_and_emit_new_attention() {
    let mut store = Store::new();
    let mut candidate = session("stale");
    candidate.activity = Activity::Completed;
    candidate.last_interaction_unix_seconds = 100;
    store.record(&vec![candidate.clone()], NOW);
    assert_eq!(store.auto_settle_stale_at(1_000_000, 60), 1);

    candidate.activity = Activity::WaitingInput;
    candidate.last_interaction_unix_seconds = 101;
    let transitions = store.record(&vec![candidate.clone()], NOW);

    assert_eq!(transitions.len(), 1);
    assert_eq!(transitions[0].kind, SessionTransitionKind::Input);
    assert_eq!(store.load(false), [candidate.clone()]);
    assert_eq!(store.unread_session_ids(), [candidate.id]);
}

#[test]
fn history_combines_active_and_settled_sessions_by_native_recency() {
    let mut store = Store::new();
    let mut older = session("older active");
    older.id = "topo:codex:older".to_owned();
    older.native_session_id = "older".to_owned();
    older.last_interaction_unix_seconds = 100;
    let mut newer = session("newer settled");
    newer.id = "topo:codex:newer".to_owned();
    newer.native_session_id = "newer".to_owned();
    newer.last_interaction_unix_seconds = 200;
    store.record(&vec![older, newer.clone()], NOW);
    store
        .set_archived(&newer.id, true, NOW)
        .expect("newer session should settle");

    let history = store.load_history();

    assert_eq!(
        history
            .iter()
            .map(|entry| entry.session.title.as_str())
            .collect::<Vec<_>>(),
        ["newer settled", "older active"]
    );
    assert!(history[0].settled);
    assert_eq!(history[0].settle_reason.as_deref(), Some("manual"));
    assert!(!history[1].settled);
}

#[test]
fn completed_sessions_auto_settle_after_one_week() {
    let mut store = Store::new();
    let mut stale = session("stale");
    stale.last_interaction_unix_seconds = 100;
    store.record(&vec![stale], NOW);

    assert_eq!(
        store.auto_settle_stale_at(
            100 + DEFAULT_STALE_AFTER_SECONDS as i64,
            DEFAULT_STALE_AFTER_SECONDS
        ),
        1
    );
    assert!(store.load(false).is_empty());
    assert_eq!(store.load(true).len(), 1);
}

#[test]
fn attention_states_never_auto_settle() {
    for activity in [
        Activity::Working,
        Activity::WaitingApproval,
        Activity::WaitingInput,
        Activity::Failed,
    ] {
        let mut store = Store::new();
        let mut candidate = session("attention");
        candidate.activity = activity;
        candidate.last_interaction_unix_seconds = 100;
        store.record(&vec![candidate], NOW);

        assert_eq!(store.auto_settle_stale_at(1_000_000, 60), 0);
        assert_eq!(store.load(false).len(), 1);
    }
}

#[test]
fn manually_restored_stale_sessions_stay_active_until_new_activity() {
    let mut store = Store::new();
    let mut stale = session("stale");
    stale.last_interaction_unix_seconds = 100;
    store.record(&vec![stale.clone()], NOW);
    store.auto_settle_stale_at(1_000, 60);
    store
        .set_archived(&stale.id, false, NOW)
        .expect("session should restore");

    assert_eq!(store.auto_settle_stale_at(1_000, 60), 0);
    store.record(&vec![stale.clone()], NOW);
    assert_eq!(store.auto_settle_stale_at(1_000, 60), 0);

    stale.last_interaction_unix_seconds = 200;
    store.record(&vec![stale], NOW);
    assert_eq!(store.auto_settle_stale_at(1_000, 60), 1);
}

#[test]
fn new_activity_wakes_an_auto_settled_session_but_not_a_manual_archive() {
    let mut auto_store = Store::new();
    let mut auto = session("auto");
    auto.last_interaction_unix_seconds = 100;
    auto_store.record(&vec![auto.clone()], NOW);
    auto_store.auto_settle_stale_at(1_000, 60);
    auto.last_interaction_unix_seconds = 950;
    auto_store.record(&vec![auto], NOW);
    assert_eq!(auto_store.load(false).len(), 1);

    let mut manual_store = Store::new();
    let mut manual = session("manual");
    manual.last_interaction_unix_seconds = 100;
    manual_store.record(&vec![manual.clone()], NOW);
    manual_store
        .set_archived(&manual.id, true, NOW)
        .expect("session should archive");
    manual.last_interaction_unix_seconds = 950;
    manual_store.record(&vec![manual], NOW);
    assert!(manual_store.load(false).is_empty());
}

#[test]
fn an_unknown_session_cannot_be_archived() {
    let mut store = Store::new();
    store.record(&vec![session("known")], NOW);

    let error = store
        .set_archived("topo:codex:other", true, NOW)
        .expect_err("an unknown session should be refused");

    assert_eq!(error, StoreError::UnknownSession);
    assert_eq!(
        error.message(),
        "Rollcall state database failed: Query returned no rows"
    );
    assert_eq!(store.load(false).len(), 1);
}

#[test]
fn archiving_and_restoring_keep_the_snapshot() {
    let mut store = Store::new();
    let saved = session("saved");
    store.record(&vec![saved.clone()], NOW);
    store.set_archived(&saved.id, true, NOW + 1).expect("archive");

    assert_eq!(store.rows()[0].archived_at, Some(NOW + 1));
    assert_eq!(store.rows()[0].archive_reason, Some(ArchiveReason::Manual));
    assert_eq!(store.load(true), [saved.clone()]);

    store.set_archived(&saved.id, false, NOW + 2).expect("restore");
    assert_eq!(store.rows()[0].archived_at, None);
    assert_eq!(store.load(false), [saved]);
}

#[test]
fn recording_leaves_other_sessions_alone() {
    let mut store = Store::new();
    let first = session("first");
    let mut second = session("second");
    second.id = "topo:codex:020a".to_owned();
    second.native_session_id = "020a".to_owned();
    store.record(&vec![first.clone()], NOW);
    store.record(&vec![second.clone()], NOW + 5);

    assert_eq!(store.rows().len(), 2);
    assert_eq!(store.rows()[0].snapshot, first);
    assert_eq!(store.rows()[0].last_seen, NOW);
    // The row that was seen last comes first.
    assert_eq!(store.load(false), [second, first]);
}

#[test]
fn settling_twice_settles_nothing_more() {
    let mut store = Store::new();
    store.record(&vec![session("stale")], NOW);

    assert_eq!(store.auto_settle_stale_at(1_000, 60), 1);
    assert_eq!(store.auto_settle_stale_at(1_000, 60), 0);
    assert_eq!(store.rows()[0].archive_reason, Some(ArchiveReason::Stale));
}

#[test]
fn the_stale_limit_is_inclusive() {
    let mut store = Store::new();
    store.record(&vec![session("stale")], NOW);

    assert_eq!(store.auto_settle_stale_at(159, 60), 0);
    assert_eq!(store.auto_settle_stale_at(160, 60), 1);
}

#[test]
fn rows_with_one_identifier_twice_are_refused() {
    let mut store = Store::new();
    store.record(&vec![session("only")], NOW);
    let row = store.rows()[0].clone();

    assert!(Store::from_rows(vec![row.clone()]).is_some());
    assert!(Store::from_rows(vec![row.clone(), row]).is_none());
}

#[test]
fn stored_seconds_saturate() {
    assert_eq!(to_stored_seconds(100), 100);
    assert_eq!(to_stored_seconds(u64::MAX), i64::MAX);
}

#[test]
fn the_state_path_follows_the_environment() {
    assert_eq!(
        state_path(
            Some("/tmp/state.db".to_owned()),
            Some("/xdg".to_owned()),
            Some("/home/u".to_owned())
        ),
        Ok("/tmp/state.db".to_owned())
    );
    assert_eq!(
        state_path(None, Some("/xdg".to_owned()), Some("/home/u".to_owned())),
        Ok("/xdg/rollcall/rollcall.db".to_owned())
    );
    assert_eq!(
        state_path(None, None, Some("/home/u".to_owned())),
        Ok("/home/u/.local/state/rollcall/rollcall.db".to_owned())
    );
    let error = state_path(None, None, None).expect_err("no directory is known");
    assert_eq!(error, StoreError::MissingStateDirectory);
    assert_eq!(
        error.message(),
        "could not determine a local state directory"
    );
}

#[test]
fn rows_without_an_interaction_time_take_it_from_their_snapshot() {
    let mut store = Store::new();
    store.record(&vec![session("legacy")], NOW);
    let mut row = store.rows()[0].clone();
    row.last_interaction = 0;
    let store = Store::from_rows(vec![row]).expect("one row");
    assert_eq!(store.rows()[0].last_interaction, 100);
}
