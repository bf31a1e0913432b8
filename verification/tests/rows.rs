use jet_black::error::PersistenceError;
use jet_black::finalization::expected_changeset_ref;
use jet_black::rows::{
    check_approval_row, check_changeset_checkpoint, check_checkpoint_owner, check_finding_row,
    check_record_id, check_worktree_row, snapshot_shows_worktree, ChangesetCheckpointRow,
};
use jet_black::store::{WorktreeRecord, WorktreeState};

const ID_1: &str = "00000000-0000-0000-0000-000000000001";
const ID_2: &str = "00000000-0000-0000-0000-000000000002";
const ID_3: &str = "00000000-0000-0000-0000-000000000003";

#[test]
fn worktree_rows_must_agree_with_their_body() {
    let worktree = WorktreeRecord { id: 1, changeset_id: 2, state: WorktreeState::Ready, version: 4 };
    assert_eq!(check_worktree_row(ID_1, ID_2, WorktreeState::Ready, 4, &worktree), Ok(()));
    assert_eq!(
        check_worktree_row("bad", ID_2, WorktreeState::Ready, 4, &worktree),
        Err(PersistenceError::CorruptIdentifier("worktree id"))
    );
    assert_eq!(
        check_worktree_row(ID_1, ID_2, WorktreeState::Failed, 4, &worktree),
        Err(PersistenceError::CorruptOwnership("worktree"))
    );
    assert_eq!(
        check_worktree_row(ID_1, ID_2, WorktreeState::Ready, 5, &worktree),
        Err(PersistenceError::CorruptVersion { aggregate: "worktree", id: 1, scalar: 5, serialized: 4 })
    );
}

#[test]
fn checkpoints_belong_to_their_run_and_changeset() {
    assert_eq!(check_checkpoint_owner(1, ID_1, 1), Ok(()));
    assert_eq!(check_checkpoint_owner(1, ID_2, 1), Err(PersistenceError::CorruptOwnership("checkpoint")));
    let row = ChangesetCheckpointRow {
        scalar_checkpoint_id: ID_3.to_owned(),
        scalar_run_id: ID_1.to_owned(),
        scalar_changeset_id: ID_2.to_owned(),
        checkpoint_id: 3,
        checkpoint_run_id: 1,
    };
    assert_eq!(check_changeset_checkpoint(&row, 3, 2), Ok(()));
    assert_eq!(check_changeset_checkpoint(&row, 3, 1), Err(PersistenceError::CorruptOwnership("checkpoint")));
}

#[test]
fn approvals_belong_to_their_run() {
    assert_eq!(check_approval_row(1, ID_3, ID_1, 3, 1, None), Ok(()));
    assert_eq!(check_approval_row(1, ID_3, ID_1, 3, 1, Some(3)), Ok(()));
    assert_eq!(check_approval_row(1, ID_3, ID_1, 3, 1, Some(4)), Err(PersistenceError::CorruptOwnership("approval")));
    assert_eq!(check_approval_row(1, ID_3, ID_1, 3, 2, None), Err(PersistenceError::CorruptOwnership("approval")));
}

#[test]
fn findings_belong_to_their_changeset() {
    assert_eq!(check_finding_row(2, ID_2, 2, 9, 1, 1), Ok(()));
    assert_eq!(check_finding_row(2, ID_1, 2, 9, 1, 1), Err(PersistenceError::CorruptOwnership("finding")));
    assert_eq!(
        check_finding_row(2, ID_2, 2, 9, 2, 1),
        Err(PersistenceError::CorruptVersion { aggregate: "finding", id: 9, scalar: 2, serialized: 1 })
    );
    assert_eq!(check_record_id("repository", 1, 2), Err(PersistenceError::CorruptOwnership("repository")));
}

#[test]
fn only_the_latest_run_shows_the_worktree() {
    assert!(snapshot_shows_worktree(ID_1, 1));
    assert!(!snapshot_shows_worktree(ID_2, 1));
    assert_eq!(expected_changeset_ref(1), format!("refs/jet-black/changesets/{ID_1}"));
}
