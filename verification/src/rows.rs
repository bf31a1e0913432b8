//! Ownership checks on stored rows: the scalar columns that index a row
//! must agree with the record serialized in it.

use vstd::prelude::*;
use crate::digest::{parse_uuid, parse_uuid_text, uuid_text, uuid_to_string};
use crate::error::PersistenceError;
use crate::store::{ensure_version_agreement, WorktreeRecord, WorktreeState};
use crate::text::str_equals;

verus! {

/// `text` is the stored form of identifier `id`.
pub open spec fn names(text: Seq<char>, id: u128) -> bool {
    text == uuid_text(id)
}

fn names_id(text: &str, id: u128) -> (r: bool)
    ensures
        r == names(text@, id),
{
    let expected = uuid_to_string(id);
    str_equals(text, expected.as_str())
}

/// The outcome of reading a worktree row.
pub open spec fn worktree_row_check(
    scalar_id: Seq<char>,
    scalar_changeset_id: Seq<char>,
    scalar_state: WorktreeState,
    scalar_version: u64,
    worktree: WorktreeRecord,
) -> Result<(), PersistenceError> {
    match parse_uuid_text(scalar_id) {
        None => Err(PersistenceError::CorruptIdentifier("worktree id")),
        Some(id) => match parse_uuid_text(scalar_changeset_id) {
            None => Err(PersistenceError::CorruptIdentifier("worktree changeset id")),
            Some(changeset_id) => if worktree.id != id || worktree.changeset_id != changeset_id
                || worktree.state != scalar_state {
                Err(PersistenceError::CorruptOwnership("worktree"))
            } else if scalar_version != worktree.version {
                Err(PersistenceError::CorruptVersion {
                    aggregate: "worktree",
                    id: worktree.id,
                    scalar: scalar_version,
                    serialized: worktree.version,
                })
            } else {
                Ok(())
            },
        },
    }
}

/// Refuses a worktree row whose identifier, changeset, state or version
/// columns disagree with the worktree stored in it.
pub fn check_worktree_row(
    scalar_id: &str,
    scalar_changeset_id: &str,
    scalar_state: WorktreeState,
    scalar_version: u64,
    worktree: &WorktreeRecord,
) -> (r: Result<(), PersistenceError>)
    ensures
        r == worktree_row_check(scalar_id@, scalar_changeset_id@, scalar_state, scalar_version, *worktree),
{
    let id = match parse_uuid(scalar_id) {
        Some(id) => id,
        None => return Err(PersistenceError::CorruptIdentifier("worktree id")),
    };
    let changeset_id = match parse_uuid(scalar_changeset_id) {
        Some(id) => id,
        None => return Err(PersistenceError::CorruptIdentifier("worktree changeset id")),
    };
    if worktree.id != id || worktree.changeset_id != changeset_id || worktree.state != scalar_state {
        return Err(PersistenceError::CorruptOwnership("worktree"));
    }
    ensure_version_agreement("worktree", worktree.id, scalar_version, worktree.version)
}

/// Refuses a run's checkpoint row whose owner column or checkpoint names
/// another run.
pub fn check_checkpoint_owner(run_id: u128, scalar_run_id: &str, checkpoint_run_id: u128) -> (r: Result<(), PersistenceError>)
    ensures
        r == if names(scalar_run_id@, run_id) && checkpoint_run_id == run_id {
            Ok::<(), PersistenceError>(())
        } else {
            Err(PersistenceError::CorruptOwnership("checkpoint"))
        },
{
    if !names_id(scalar_run_id, run_id) || checkpoint_run_id != run_id {
        return Err(PersistenceError::CorruptOwnership("checkpoint"));
    }
    Ok(())
}

/// The columns of a checkpoint read for a changeset, beside the checkpoint
/// stored in it.
#[derive(Debug, Clone)]
pub struct ChangesetCheckpointRow {
    pub scalar_checkpoint_id: String,
    pub scalar_run_id: String,
    pub scalar_changeset_id: String,
    pub checkpoint_id: u128,
    pub checkpoint_run_id: u128,
}

/// A checkpoint row read for a changeset agrees with the checkpoint
/// requested and the changeset it is read for.
pub open spec fn changeset_checkpoint_agrees(row: ChangesetCheckpointRow, checkpoint_id: u128, changeset_id: u128) -> bool {
    &&& names(row.scalar_checkpoint_id@, checkpoint_id)
    &&& row.checkpoint_id == checkpoint_id
    &&& names(row.scalar_run_id@, row.checkpoint_run_id)
    &&& names(row.scalar_changeset_id@, changeset_id)
}

/// Refuses a checkpoint that is not the requested one or does not belong to
/// the changeset.
pub fn check_changeset_checkpoint(row: &ChangesetCheckpointRow, checkpoint_id: u128, changeset_id: u128) -> (r: Result<
    (),
    PersistenceError,
>)
    ensures
        r == if changeset_checkpoint_agrees(*row, checkpoint_id, changeset_id) {
            Ok::<(), PersistenceError>(())
        } else {
            Err(PersistenceError::CorruptOwnership("checkpoint"))
        },
{
    if !names_id(row.scalar_checkpoint_id.as_str(), checkpoint_id) || row.checkpoint_id != checkpoint_id
        || !names_id(row.scalar_run_id.as_str(), row.checkpoint_run_id)
        || !names_id(row.scalar_changeset_id.as_str(), changeset_id)
    {
        return Err(PersistenceError::CorruptOwnership("checkpoint"));
    }
    Ok(())
}

/// An approval row of run `run_id` agrees with the approval stored in it;
/// where a particular approval was asked for, it is that one.
pub open spec fn approval_row_agrees(
    run_id: u128,
    scalar_approval_id: Seq<char>,
    scalar_run_id: Seq<char>,
    approval_id: u128,
    approval_run_id: u128,
    requested: Option<u128>,
) -> bool {
    &&& names(scalar_approval_id, approval_id)
    &&& names(scalar_run_id, run_id)
    &&& approval_run_id == run_id
    &&& requested matches Some(r) ==> r == approval_id
}

/// Refuses an approval row that names another approval or run.
pub fn check_approval_row(
    run_id: u128,
    scalar_approval_id: &str,
    scalar_run_id: &str,
    approval_id: u128,
    approval_run_id: u128,
    requested: Option<u128>,
) -> (r: Result<(), PersistenceError>)
    ensures
        r == if approval_row_agrees(run_id, scalar_approval_id@, scalar_run_id@, approval_id, approval_run_id, requested) {
            Ok::<(), PersistenceError>(())
        } else {
            Err(PersistenceError::CorruptOwnership("approval"))
        },
{
    if !names_id(scalar_approval_id, approval_id) || !names_id(scalar_run_id, run_id) || approval_run_id != run_id {
        return Err(PersistenceError::CorruptOwnership("approval"));
    }
    if let Some(expected) = requested {
        if expected != approval_id {
            return Err(PersistenceError::CorruptOwnership("approval"));
        }
    }
    Ok(())
}

/// The outcome of reading a finding row of changeset `changeset_id`.
pub open spec fn finding_row_check(
    changeset_id: u128,
    scalar_changeset_id: Seq<char>,
    finding_changeset_id: u128,
    finding_id: u128,
    scalar_version: u64,
    finding_version: u64,
) -> Result<(), PersistenceError> {
    if !names(scalar_changeset_id, changeset_id) || finding_changeset_id != changeset_id {
        Err(PersistenceError::CorruptOwnership("finding"))
    } else if scalar_version != finding_version {
        Err(PersistenceError::CorruptVersion {
            aggregate: "finding",
            id: finding_id,
            scalar: scalar_version,
            serialized: finding_version,
        })
    } else {
        Ok(())
    }
}

/// Refuses a finding row that belongs to another changeset or whose version
/// column disagrees with the finding.
pub fn check_finding_row(
    changeset_id: u128,
    scalar_changeset_id: &str,
    finding_changeset_id: u128,
    finding_id: u128,
    scalar_version: u64,
    finding_version: u64,
) -> (r: Result<(), PersistenceError>)
    ensures
        r == finding_row_check(changeset_id, scalar_changeset_id@, finding_changeset_id, finding_id, scalar_version, finding_version),
{
    if !names_id(scalar_changeset_id, changeset_id) || finding_changeset_id != changeset_id {
        return Err(PersistenceError::CorruptOwnership("finding"));
    }
    ensure_version_agreement("finding", finding_id, scalar_version, finding_version)
}

/// Refuses a stored record of one aggregate whose identifier is not the one
/// it was read under (repositories, changesets, runs).
pub fn check_record_id(aggregate: &'static str, requested: u128, stored: u128) -> (r: Result<(), PersistenceError>)
    ensures
        r == if requested == stored {
            Ok::<(), PersistenceError>(())
        } else {
            Err(PersistenceError::CorruptOwnership(aggregate))
        },
{
    if requested != stored {
        return Err(PersistenceError::CorruptOwnership(aggregate));
    }
    Ok(())
}

/// A run's snapshot shows the changeset's worktree only when the run is the
/// latest run of its changeset.
pub fn snapshot_shows_worktree(latest_run_id_text: &str, run_id: u128) -> (r: bool)
    ensures
        r == names(latest_run_id_text@, run_id),
{
    names_id(latest_run_id_text, run_id)
}

} // verus!
