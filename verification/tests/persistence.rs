use jet_black::error::PersistenceError;
use jet_black::lease::{
    acquire_mutation_lease, release_removes_lease, validate_mutation_lease, verify_mutation_lease,
    MutationLease, MutationLeaseRow,
};
use jet_black::store::{
    bounded_event_page, check_versioned_update, ensure_version_agreement, plan_migration,
    plan_recovery, plan_worktree_update, recovery_disposition, validate_page_limit, validate_state_transition,
    validate_versioned_transition, validate_worktree_transition, EventRow, RecoveryDisposition,
    RunState, SchemaProbe, SqliteStore, WorktreeRecord, WorktreeState, WorktreeWrite, CURRENT_SCHEMA_VERSION,
};
use jet_black::time::Duration;

const CHANGESET: u128 = 0x11;
const RUN_A: u128 = 0xa;
const RUN_B: u128 = 0xb;

#[test]
fn first_lease_starts_at_epoch_one() {
    let lease = acquire_mutation_lease(None, CHANGESET, RUN_A, 1_000, Duration::from_millis(10)).unwrap();
    assert_eq!(
        lease,
        MutationLease { changeset_id: CHANGESET, run_id: RUN_A, fencing_epoch: 1, expires_at_unix_ms: 1_010 }
    );
}

#[test]
fn live_lease_excludes_other_runs() {
    let held = acquire_mutation_lease(None, CHANGESET, RUN_A, 1_000, Duration::from_millis(10)).unwrap();
    assert_eq!(
        acquire_mutation_lease(Some(held), CHANGESET, RUN_B, 1_005, Duration::from_millis(10)),
        Err(PersistenceError::MutationLeaseHeld { changeset_id: CHANGESET, run_id: RUN_A, expires_at_unix_ms: 1_010 })
    );
}

#[test]
fn holder_renews_without_a_new_epoch() {
    let held = acquire_mutation_lease(None, CHANGESET, RUN_A, 1_000, Duration::from_millis(10)).unwrap();
    let renewed = acquire_mutation_lease(Some(held), CHANGESET, RUN_A, 1_005, Duration::from_millis(10)).unwrap();
    assert_eq!(renewed.fencing_epoch, 1);
    assert_eq!(renewed.expires_at_unix_ms, 1_015);
}

#[test]
fn expired_lease_is_taken_over_with_a_new_epoch() {
    let held = acquire_mutation_lease(None, CHANGESET, RUN_A, 1_000, Duration::from_millis(10)).unwrap();
    let taken = acquire_mutation_lease(Some(held), CHANGESET, RUN_B, 1_010, Duration::from_millis(10)).unwrap();
    assert_eq!(taken.run_id, RUN_B);
    assert_eq!(taken.fencing_epoch, 2);
    assert_eq!(verify_mutation_lease(Some(taken), RUN_A, 1, 1_011), Err(PersistenceError::MutationLeaseMismatch));
    assert_eq!(verify_mutation_lease(Some(taken), RUN_B, 2, 1_011), Ok(taken));
}

#[test]
fn lease_ttl_must_be_positive_and_fit() {
    assert_eq!(
        acquire_mutation_lease(None, CHANGESET, RUN_A, 1_000, Duration::from_secs(0)),
        Err(PersistenceError::InvalidLeaseTtl)
    );
    assert_eq!(
        acquire_mutation_lease(None, CHANGESET, RUN_A, i64::MAX - 5, Duration::from_millis(10)),
        Err(PersistenceError::InvalidLeaseTtl)
    );
}

#[test]
fn exhausted_epoch_cannot_be_taken_over() {
    let held = MutationLease { changeset_id: CHANGESET, run_id: RUN_A, fencing_epoch: u64::MAX, expires_at_unix_ms: 5 };
    assert_eq!(
        acquire_mutation_lease(Some(held), CHANGESET, RUN_B, 10, Duration::from_millis(10)),
        Err(PersistenceError::FencingEpochExhausted)
    );
}

#[test]
fn verification_rejects_expired_and_missing_leases() {
    let lease = MutationLease { changeset_id: CHANGESET, run_id: RUN_A, fencing_epoch: 3, expires_at_unix_ms: 100 };
    assert_eq!(verify_mutation_lease(Some(lease), RUN_A, 3, 100), Err(PersistenceError::MutationLeaseExpired));
    assert_eq!(verify_mutation_lease(None, RUN_A, 3, 50), Err(PersistenceError::MutationLeaseMismatch));
    assert!(release_removes_lease(Some(lease), RUN_A, 3));
    assert!(!release_removes_lease(Some(lease), RUN_A, 2));
    assert!(!release_removes_lease(None, RUN_A, 3));
}

#[test]
fn lease_rows_must_agree_with_their_body() {
    let body = MutationLease { changeset_id: 1, run_id: 2, fencing_epoch: 3, expires_at_unix_ms: 4 };
    let row = MutationLeaseRow {
        changeset_id: "00000000-0000-0000-0000-000000000001".to_owned(),
        run_id: "00000000-0000-0000-0000-000000000002".to_owned(),
        fencing_epoch: 3,
        expires_at_unix_ms: 4,
    };
    assert_eq!(validate_mutation_lease(&row, body), Ok(body));
    let bad = MutationLeaseRow { run_id: "not-a-uuid".to_owned(), ..row };
    assert_eq!(validate_mutation_lease(&bad, body), Err(PersistenceError::CorruptLease));
}

fn probe(recorded: u32, execution: bool, product: bool, legacy: u32) -> SchemaProbe {
    SchemaProbe {
        recorded_version: recorded,
        has_execution_schema: execution,
        has_product_schema: product,
        legacy_version: legacy,
    }
}

#[test]
fn migration_starts_from_the_recorded_version() {
    assert_eq!(plan_migration(probe(0, false, false, 0)), Ok(0));
    assert_eq!(plan_migration(probe(3, true, false, 0)), Ok(3));
    assert_eq!(plan_migration(probe(CURRENT_SCHEMA_VERSION, true, true, 0)), Ok(CURRENT_SCHEMA_VERSION));
    assert_eq!(plan_migration(probe(0, true, false, 2)), Ok(2));
}

#[test]
fn newer_schemas_are_refused() {
    assert_eq!(
        plan_migration(probe(999, true, false, 0)),
        Err(PersistenceError::UnsupportedSchemaVersion { database: 999, runtime: CURRENT_SCHEMA_VERSION })
    );
    assert_eq!(
        plan_migration(probe(0, false, false, 7)),
        Err(PersistenceError::UnsupportedSchemaVersion { database: 7, runtime: CURRENT_SCHEMA_VERSION })
    );
    let opened = SqliteStore::open("/data/db.sqlite", probe(999, true, false, 0));
    assert!(opened.is_err());
    let (store, version) = SqliteStore::open("/data/db.sqlite", probe(2, true, false, 0)).unwrap();
    assert_eq!(store.path(), "/data/db.sqlite");
    assert_eq!(version, 2);
}

#[test]
fn version_columns_must_agree() {
    assert_eq!(ensure_version_agreement("run", 7, 3, 3), Ok(()));
    assert_eq!(
        ensure_version_agreement("run", 7, 3, 4),
        Err(PersistenceError::CorruptVersion { aggregate: "run", id: 7, scalar: 3, serialized: 4 })
    );
}

#[test]
fn state_transitions_advance_the_version_by_one() {
    assert_eq!(validate_state_transition("changeset", 1, 4, 5, true), Ok(()));
    assert_eq!(
        validate_state_transition("changeset", 1, 3, 5, true),
        Err(PersistenceError::VersionConflict { aggregate: "changeset", id: 1, expected: 4, actual: 3 })
    );
    assert_eq!(
        validate_state_transition("changeset", 1, 4, 5, false),
        Err(PersistenceError::InvalidPersistedTransition("changeset"))
    );
}

#[test]
fn versioned_run_writes_accept_replays_and_single_steps() {
    assert_eq!(validate_versioned_transition("run", 1, RunState::Running, RunState::Running, 2, 2, false), Ok(()));
    assert_eq!(validate_versioned_transition("run", 1, RunState::Running, RunState::Completed, 2, 3, true), Ok(()));
    assert_eq!(
        validate_versioned_transition("run", 1, RunState::Running, RunState::Completed, 2, 3, false),
        Err(PersistenceError::InvalidPersistedTransition("run"))
    );
    assert_eq!(
        validate_versioned_transition("run", 1, RunState::Running, RunState::Completed, 1, 3, true),
        Err(PersistenceError::VersionConflict { aggregate: "run", id: 1, expected: 2, actual: 1 })
    );
}

fn worktree(state: WorktreeState, version: u64) -> WorktreeRecord {
    WorktreeRecord { id: 9, changeset_id: 8, state, version }
}

#[test]
fn worktree_transitions_follow_the_lifecycle() {
    assert_eq!(
        validate_worktree_transition(&worktree(WorktreeState::Creating, 1), &worktree(WorktreeState::Ready, 2)),
        Ok(())
    );
    assert_eq!(
        validate_worktree_transition(&worktree(WorktreeState::Ready, 2), &worktree(WorktreeState::Removed, 4)),
        Ok(())
    );
    assert_eq!(
        validate_worktree_transition(&worktree(WorktreeState::Ready, 2), &worktree(WorktreeState::Creating, 3)),
        Err(PersistenceError::InvalidPersistedTransition("worktree"))
    );
    assert_eq!(
        validate_worktree_transition(&worktree(WorktreeState::Ready, 2), &worktree(WorktreeState::Ready, 2)),
        Err(PersistenceError::InvalidPersistedTransition("worktree"))
    );
    let other = WorktreeRecord { id: 10, changeset_id: 8, state: WorktreeState::Ready, version: 2 };
    assert_eq!(
        validate_worktree_transition(&worktree(WorktreeState::Creating, 1), &other),
        Err(PersistenceError::CorruptOwnership("worktree"))
    );
}

#[test]
fn versioned_updates_report_conflicts_and_missing_rows() {
    assert_eq!(check_versioned_update("finding", 3, 4, 1, None), Ok(()));
    assert_eq!(
        check_versioned_update("finding", 3, 4, 0, Some(6)),
        Err(PersistenceError::VersionConflict { aggregate: "finding", id: 3, expected: 4, actual: 6 })
    );
    assert_eq!(check_versioned_update("finding", 3, 4, 0, None), Err(PersistenceError::NotFound("finding")));
}

#[test]
fn page_limits_are_positive_and_bounded() {
    assert_eq!(validate_page_limit(10, 100, "event page size"), Ok(()));
    assert_eq!(validate_page_limit(0, 100, "event page size"), Err(PersistenceError::ResourceLimit("event page size")));
    assert_eq!(validate_page_limit(101, 100, "event page size"), Err(PersistenceError::ResourceLimit("event page size")));
}

fn event_row(sequence: u64, bytes: usize) -> EventRow {
    EventRow {
        scalar_run_id: "00000000-0000-0000-0000-000000000005".to_owned(),
        scalar_sequence: sequence,
        body_bytes: bytes,
        decoded: Ok((5, sequence)),
    }
}

#[test]
fn event_pages_stop_before_the_byte_budget() {
    let rows = vec![event_row(1, 40), event_row(2, 40), event_row(3, 40)];
    assert_eq!(bounded_event_page(5, &rows, 100), Ok(2));
    assert_eq!(bounded_event_page(5, &rows, 30), Err(PersistenceError::ResourceLimit("event page bytes")));
}

#[test]
fn restart_recovery_sorts_runs_by_state() {
    assert_eq!(recovery_disposition(RunState::Starting), RecoveryDisposition::Failed);
    assert_eq!(recovery_disposition(RunState::AwaitingApproval), RecoveryDisposition::Interrupted);
    assert_eq!(recovery_disposition(RunState::Queued), RecoveryDisposition::Recoverable);
    assert_eq!(recovery_disposition(RunState::Completed), RecoveryDisposition::Terminal);
    let plan = plan_recovery(&[
        (1, RunState::Running),
        (2, RunState::Starting),
        (3, RunState::Completed),
        (4, RunState::Reviewable),
        (5, RunState::AwaitingApproval),
    ]);
    assert_eq!(plan.interrupted, vec![1, 5]);
    assert_eq!(plan.failed, vec![2]);
    assert_eq!(plan.terminal, vec![3]);
    assert_eq!(plan.recoverable, vec![4]);
}

#[test]
fn a_second_restart_recovery_moves_nothing() {
    let plan = plan_recovery(&[
        (1, RunState::Running),
        (2, RunState::Starting),
        (3, RunState::Completed),
        (4, RunState::Reviewable),
    ]);
    let mut after = vec![(3, RunState::Completed), (4, RunState::Reviewable)];
    after.extend(plan.interrupted.iter().map(|id| (*id, RunState::Interrupted)));
    after.extend(plan.failed.iter().map(|id| (*id, RunState::Failed)));
    let again = plan_recovery(&after);
    assert!(again.interrupted.is_empty() && again.failed.is_empty());
    assert_eq!(again.recoverable, plan.recoverable);
    assert_eq!(again.terminal, vec![3, 1, 2]);
}

#[test]
fn worktree_updates_list_their_writes() {
    let ready = worktree(WorktreeState::Ready, 2);
    assert_eq!(plan_worktree_update(&ready, &ready, true), Ok(vec![]));
    assert_eq!(
        plan_worktree_update(&ready, &ready, false),
        Err(PersistenceError::InvalidPersistedTransition("worktree"))
    );
    assert_eq!(
        plan_worktree_update(&ready, &worktree(WorktreeState::Removing, 3), false),
        Ok(vec![WorktreeWrite { expected_version: 2, state: WorktreeState::Removing, version: 3 }])
    );
    assert_eq!(
        plan_worktree_update(&ready, &worktree(WorktreeState::Removed, 4), false),
        Ok(vec![
            WorktreeWrite { expected_version: 2, state: WorktreeState::Removing, version: 3 },
            WorktreeWrite { expected_version: 3, state: WorktreeState::Removed, version: 4 },
        ])
    );
    assert!(plan_worktree_update(&ready, &worktree(WorktreeState::Removed, 3), false).is_err());
}

#[test]
fn recovery_appends_one_lifecycle_event_per_moved_run() {
    let events = jet_black::store::recovery_events(&[
        (1, RunState::Starting, 1),
        (2, RunState::Queued, 4),
        (3, RunState::AwaitingApproval, 0),
        (4, RunState::Completed, 9),
    ]);
    assert_eq!(events, vec![(1, 2, RunState::Failed), (3, 1, RunState::Interrupted)]);
}

#[test]
fn a_renewed_lease_names_its_changeset() {
    let held = acquire_mutation_lease(None, CHANGESET, RUN_A, 0, Duration::from_millis(100)).unwrap();
    let renewed = acquire_mutation_lease(Some(held), CHANGESET, RUN_A, 50, Duration::from_millis(100)).unwrap();
    assert_eq!((renewed.changeset_id, renewed.fencing_epoch, renewed.expires_at_unix_ms), (CHANGESET, 1, 150));
}
