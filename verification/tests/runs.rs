use jet_black::error::PersistenceError;
use jet_black::finalization::ChangesetState;
use jet_black::runs::{
    check_approval_decision, check_approval_request, check_completion, check_drive_claim,
    check_history_row, check_presented_changeset, check_proposed_change, check_run_transition,
    completion_events, validate_pending_approval, validate_semantic_event, ApprovalView,
    CompletionRequest, RunApprovalView, run_history_page,
};
use jet_black::store::RunState;
use jet_black::supervision::{
    check_revision_findings, check_supervision_transition, new_recovery_action, plan_findings, same_process_supervision_identity,
    settle_recovery_action, transitioned_record, validate_finding_owners,
    validate_prepared_supervision, validate_process_supervision_record,
    validate_recovery_action_record, validate_supervision_proposal, ProcessSupervisionRecord,
    RecoveryActionStatus, SupervisionIdentity, SupervisionMetadata, SupervisionState,
};

#[test]
fn plain_run_writes_never_resume_from_approval() {
    assert_eq!(
        check_run_transition(1, RunState::AwaitingApproval, 4, RunState::Running, 5, None, true),
        Err(PersistenceError::InvalidPersistedTransition("run"))
    );
    assert_eq!(check_run_transition(1, RunState::Running, 4, RunState::AwaitingApproval, 5, None, true), Ok(()));
}

#[test]
fn a_run_is_claimed_for_driving_once() {
    assert_eq!(check_drive_claim(1, RunState::Starting, 2, RunState::Running, 3, true), Ok(()));
    assert_eq!(
        check_drive_claim(1, RunState::Running, 3, RunState::Running, 4, true),
        Err(PersistenceError::RunDriveAlreadyClaimed)
    );
    assert_eq!(
        check_drive_claim(1, RunState::Starting, 2, RunState::Failed, 3, true),
        Err(PersistenceError::InvalidPersistedTransition("run drive claim"))
    );
}

fn awaiting_run() -> RunApprovalView {
    RunApprovalView { run_id: 7, state: RunState::AwaitingApproval, changeset_id: 3, proposal_digest: Some("d1".to_owned()) }
}

fn approval() -> ApprovalView {
    ApprovalView { run_id: 7, consumed: false, scope_changeset_id: 3, digest: "d1".to_owned(), scope_digest: "d1".to_owned() }
}

#[test]
fn only_the_pending_approval_of_a_run_matches() {
    assert_eq!(validate_pending_approval(&awaiting_run(), &approval()), Ok(()));
    let consumed = ApprovalView { consumed: true, ..approval() };
    assert_eq!(validate_pending_approval(&awaiting_run(), &consumed), Err(PersistenceError::ApprovalDoesNotMatchRun));
    let other_digest = RunApprovalView { proposal_digest: Some("d2".to_owned()), ..awaiting_run() };
    assert_eq!(validate_pending_approval(&other_digest, &approval()), Err(PersistenceError::ApprovalDoesNotMatchRun));
    let running = RunApprovalView { state: RunState::Running, ..awaiting_run() };
    assert_eq!(validate_pending_approval(&running, &approval()), Err(PersistenceError::ApprovalDoesNotMatchRun));
}

#[test]
fn approval_requests_start_from_a_running_run() {
    assert_eq!(check_approval_request(RunState::Running, 4, &awaiting_run(), 5, true, &approval()), Ok(()));
    assert_eq!(
        check_approval_request(RunState::Queued, 4, &awaiting_run(), 5, true, &approval()),
        Err(PersistenceError::ApprovalDoesNotMatchRun)
    );
    assert_eq!(
        check_approval_request(RunState::Running, 3, &awaiting_run(), 5, true, &approval()),
        Err(PersistenceError::VersionConflict { aggregate: "run", id: 7, expected: 4, actual: 3 })
    );
    assert_eq!(check_approval_decision(7, 5, RunState::Interrupted, 6, true), Ok(()));
    assert_eq!(check_presented_changeset(3, 4), Err(PersistenceError::ApprovalDoesNotMatchRun));
}

#[test]
fn semantic_text_and_proposed_content_are_bounded() {
    assert_eq!(validate_semantic_event(Some(10), 10), Ok(()));
    assert_eq!(validate_semantic_event(Some(11), 10), Err(PersistenceError::ResourceLimit("semantic event text")));
    assert_eq!(validate_semantic_event(None, 0), Ok(()));
    assert_eq!(check_proposed_change(1, 5, 4, 2, 2, true, RunState::Running), Err(PersistenceError::ResourceLimit("approved file content")));
    assert_eq!(
        check_proposed_change(1, 3, 4, 3, 2, true, RunState::Running),
        Err(PersistenceError::VersionConflict { aggregate: "run", id: 1, expected: 2, actual: 3 })
    );
    assert_eq!(check_proposed_change(1, 3, 4, 2, 2, true, RunState::Running), Ok(()));
}

#[test]
fn history_rows_must_belong_to_the_changeset() {
    let run_text = "00000000-0000-0000-0000-000000000007";
    let changeset_text = "00000000-0000-0000-0000-000000000003";
    assert_eq!(check_history_row(run_text, 7, 2, 2, changeset_text, 3, 3, changeset_text), Ok(()));
    assert_eq!(check_history_row("x", 7, 2, 2, changeset_text, 3, 3, changeset_text), Err(PersistenceError::CorruptIdentifier("run id")));
    assert_eq!(check_history_row(run_text, 8, 2, 2, changeset_text, 3, 3, changeset_text), Err(PersistenceError::CorruptOwnership("run")));
    assert_eq!(check_history_row(run_text, 7, 2, 2, changeset_text, 4, 3, changeset_text), Err(PersistenceError::CorruptOwnership("run")));
}

fn completion() -> CompletionRequest {
    CompletionRequest {
        changeset_id: 3,
        stored_changeset_state: ChangesetState::Active,
        stored_changeset_version: 1,
        changeset_state: ChangesetState::Reviewable,
        changeset_version: 2,
        changeset_step_allowed: true,
        run_id: 7,
        stored_run_state: RunState::Running,
        stored_run_version: 4,
        run_state: RunState::Completed,
        run_version: 6,
        completed_matches: true,
        run_changeset_id: 3,
        checkpoint_run_id: 7,
    }
}

#[test]
fn completion_moves_a_running_run_to_completed() {
    assert_eq!(check_completion(&completion()), Ok(()));
    let stale = CompletionRequest { stored_run_version: 3, ..completion() };
    assert_eq!(
        check_completion(&stale),
        Err(PersistenceError::VersionConflict { aggregate: "run", id: 7, expected: 4, actual: 3 })
    );
    let foreign_checkpoint = CompletionRequest { checkpoint_run_id: 8, ..completion() };
    assert_eq!(check_completion(&foreign_checkpoint), Err(PersistenceError::InvalidPersistedTransition("run completion")));
    assert_eq!(completion_events(9), [(9, RunState::Reviewable), (10, RunState::Completed)]);
}

fn identity() -> SupervisionIdentity {
    SupervisionIdentity {
        pid: 42,
        process_group: 42,
        process_start: 1_000,
        executable: "/usr/bin/agent".to_owned(),
        command_digest: "c".to_owned(),
        environment_digest: "e".to_owned(),
        confinement: "none".to_owned(),
        supervision_token: "t".to_owned(),
    }
}

fn metadata(state: SupervisionState, reason: Option<&str>) -> SupervisionMetadata {
    SupervisionMetadata { supervision_id: 5, identity: identity(), state, termination_reason: reason.map(str::to_owned) }
}

#[test]
fn supervision_records_move_forward_only() {
    assert_eq!(validate_prepared_supervision(&metadata(SupervisionState::Prepared, None)), Ok(()));
    assert_eq!(
        validate_prepared_supervision(&metadata(SupervisionState::Running, None)),
        Err(PersistenceError::InvalidProcessSupervisionTransition)
    );
    assert_eq!(
        validate_supervision_proposal(&metadata(SupervisionState::Terminated, None), SupervisionState::Terminated),
        Err(PersistenceError::InvalidProcessSupervisionTransition)
    );
    let stored = ProcessSupervisionRecord { run_id: 1, metadata: metadata(SupervisionState::Prepared, None), updated_at_unix_ms: 10 };
    let running = metadata(SupervisionState::Running, None);
    assert_eq!(check_supervision_transition(&stored, &running, SupervisionState::Running, 11), Ok(()));
    assert_eq!(
        check_supervision_transition(&stored, &running, SupervisionState::Running, 9),
        Err(PersistenceError::InvalidProcessSupervisionTransition)
    );
    let terminated = transitioned_record(1, &metadata(SupervisionState::Terminated, Some("exited")), 20);
    assert_eq!(terminated.updated_at_unix_ms, 20);
    assert_eq!(
        check_supervision_transition(&terminated, &running, SupervisionState::Running, 30),
        Err(PersistenceError::InvalidProcessSupervisionTransition)
    );
    let mut moved = metadata(SupervisionState::Running, None);
    moved.identity.pid = 43;
    assert!(!same_process_supervision_identity(&stored.metadata, &moved));
    assert_eq!(
        check_supervision_transition(&stored, &moved, SupervisionState::Running, 11),
        Err(PersistenceError::InvalidProcessSupervisionTransition)
    );
}

#[test]
fn supervision_rows_must_agree_with_their_body() {
    let record = ProcessSupervisionRecord { run_id: 1, metadata: metadata(SupervisionState::Running, None), updated_at_unix_ms: 10 };
    let id = "00000000-0000-0000-0000-000000000005";
    let run = "00000000-0000-0000-0000-000000000001";
    assert_eq!(
        validate_process_supervision_record(id, run, SupervisionState::Running, 10, record.clone()),
        Ok(record.clone())
    );
    assert_eq!(
        validate_process_supervision_record(id, run, SupervisionState::Prepared, 10, record.clone()),
        Err(PersistenceError::CorruptProcessSupervision)
    );
}

#[test]
fn recovery_actions_are_idempotent_by_key() {
    assert_eq!(new_recovery_action("", None, None, "{}", 1), Err(PersistenceError::InvalidRecoveryAction));
    let first = new_recovery_action("key-1", Some(7), None, "{\"retry\":true}", 1).unwrap();
    assert_eq!(first.status, RecoveryActionStatus::Completed);
    assert_eq!(settle_recovery_action(first.clone(), Some(7), None, "{\"retry\":true}"), Ok(first.clone()));
    assert_eq!(
        settle_recovery_action(first.clone(), Some(8), None, "{\"retry\":true}"),
        Err(PersistenceError::RecoveryActionConflict)
    );
    let row = validate_recovery_action_record(
        "key-1",
        Some("00000000-0000-0000-0000-000000000007"),
        None,
        RecoveryActionStatus::Completed,
        1,
        first.clone(),
    );
    assert_eq!(row, Ok(first.clone()));
    let bad = validate_recovery_action_record("key-1", Some("bad"), None, RecoveryActionStatus::Completed, 1, first);
    assert_eq!(bad, Err(PersistenceError::CorruptRecoveryAction));
}

#[test]
fn finding_batches_belong_to_one_changeset() {
    assert_eq!(validate_finding_owners(&[4, 4, 4]), Ok(4));
    assert_eq!(validate_finding_owners(&[4, 5]), Err(PersistenceError::MixedFindingOwners));
    assert_eq!(
        validate_finding_owners(&[]),
        Err(PersistenceError::InvalidPersistedTransition("empty finding batch"))
    );
}

fn entry(key: &str, id: u128) -> (String, u128) {
    (key.to_owned(), id)
}

#[test]
fn duplicate_findings_are_answered_with_the_stored_one() {
    let existing = vec![entry("a", 1)];
    let batch = vec![entry("a", 10), entry("b", 11), entry("b", 12)];
    let plan = plan_findings(&existing, &batch, 10).unwrap();
    assert_eq!(plan.canonical, vec![1, 11, 11]);
    assert_eq!(plan.inserted, vec![1]);
}

#[test]
fn saving_the_same_findings_twice_inserts_nothing() {
    let batch = vec![entry("a", 10), entry("b", 11)];
    let first = plan_findings(&[], &batch, 10).unwrap();
    assert_eq!(first.inserted, vec![0, 1]);
    let stored = vec![entry("a", 10), entry("b", 11)];
    let second = plan_findings(&stored, &batch, 10).unwrap();
    assert_eq!(second.canonical, first.canonical);
    assert!(second.inserted.is_empty());
}

#[test]
fn new_findings_stop_at_the_changeset_limit() {
    let existing = vec![entry("a", 1), entry("b", 2)];
    assert_eq!(
        plan_findings(&existing, &[entry("c", 3)], 2),
        Err(PersistenceError::ResourceLimit("findings per changeset"))
    );
    assert_eq!(plan_findings(&existing, &[entry("a", 3)], 2).unwrap().canonical, vec![1]);
}

#[test]
fn review_findings_are_saved_only_for_the_reviewed_revision() {
    let check = check_revision_findings;
    assert_eq!(check(&[3, 3], 3, 5, 5, ChangesetState::Reviewable, "h", "h"), Ok(()));
    assert_eq!(check(&[], 3, 5, 5, ChangesetState::Reviewable, "h", "h"), Ok(()));
    assert_eq!(check(&[4], 3, 5, 5, ChangesetState::Reviewable, "h", "h"), Err(PersistenceError::MixedFindingOwners));
    assert_eq!(
        check(&[3], 3, 5, 6, ChangesetState::Reviewable, "h", "h"),
        Err(PersistenceError::VersionConflict { aggregate: "changeset", id: 3, expected: 5, actual: 6 })
    );
    assert_eq!(
        check(&[3], 3, 5, 5, ChangesetState::Reviewable, "h", "g"),
        Err(PersistenceError::InvalidPersistedTransition("review finding persistence"))
    );
}

#[test]
fn run_history_is_newest_first_and_bounded() {
    assert_eq!(run_history_page(&[1, 2, 3, 4], 2, 100), Ok(vec![4, 3]));
    assert_eq!(run_history_page(&[1, 2], 5, 100), Ok(vec![2, 1]));
    assert_eq!(run_history_page(&[1], 0, 100), Err(PersistenceError::ResourceLimit("run history page size")));
    assert_eq!(run_history_page(&[1], 101, 100), Err(PersistenceError::ResourceLimit("run history page size")));
}
