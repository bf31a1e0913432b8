//! Rules of the SQLite store: optimistic versioning of aggregates, worktree
//! lifecycle transitions, schema migration planning, bounded event pages,
//! and the classification of runs after a restart.

use vstd::prelude::*;
use crate::digest::{uuid_text, uuid_to_string};
use crate::error::PersistenceError;

verus! {

/// The schema version this runtime writes.
pub const CURRENT_SCHEMA_VERSION: u32 = 5;

/// Lifecycle states of a run.
#[derive(Debug, Clone, Copy, PartialEq, Eq, Structural)]
pub enum RunState {
    Queued,
    Starting,
    Running,
    AwaitingApproval,
    Reviewable,
    Completed,
    Interrupted,
    Failed,
}

/// Lifecycle states of a worktree.
#[derive(Debug, Clone, Copy, PartialEq, Eq, Structural)]
pub enum WorktreeState {
    Creating,
    Ready,
    Removing,
    Removed,
    Failed,
    Quarantined,
}

/// What the transition rules read of a worktree.
#[derive(Debug, Clone, Copy, PartialEq, Eq, Structural)]
pub struct WorktreeRecord {
    pub id: u128,
    pub changeset_id: u128,
    pub state: WorktreeState,
    pub version: u64,
}

/// Refuses a stored aggregate whose scalar version column disagrees with
/// the version inside its serialized body.
pub fn ensure_version_agreement(aggregate: &'static str, id: u128, scalar: u64, serialized: u64) -> (r: Result<
    (),
    PersistenceError,
>)
    ensures
        r == (if scalar != serialized {
            Err(PersistenceError::CorruptVersion { aggregate, id, scalar, serialized })
        } else {
            Ok(())
        }),
{
    if scalar != serialized {
        return Err(PersistenceError::CorruptVersion { aggregate, id, scalar, serialized });
    }
    Ok(())
}

/// `x - 1`, or 0 when `x` is 0.
pub open spec fn pred_sat(x: u64) -> u64 {
    if x == 0 { 0 } else { (x - 1) as u64 }
}

/// `x + 1`, or `u64::MAX` when `x` is `u64::MAX`.
pub open spec fn succ_sat(x: u64) -> u64 {
    if x == u64::MAX { x } else { (x + 1) as u64 }
}

/// The outcome of writing a state change that must advance the stored
/// version by exactly one; `allowed` says whether the domain model permits
/// the stored state to move to the proposed one.
pub open spec fn state_transition_check(
    aggregate: &'static str,
    id: u128,
    stored_version: u64,
    proposed_version: u64,
    allowed: bool,
) -> Result<(), PersistenceError> {
    let expected = pred_sat(proposed_version);
    if stored_version != expected {
        Err(PersistenceError::VersionConflict { aggregate, id, expected, actual: stored_version })
    } else if proposed_version != succ_sat(stored_version) || !allowed {
        Err(PersistenceError::InvalidPersistedTransition(aggregate))
    } else {
        Ok(())
    }
}

/// Checks a proposed state change against the stored version.
pub fn validate_state_transition(
    aggregate: &'static str,
    id: u128,
    stored_version: u64,
    proposed_version: u64,
    allowed: bool,
) -> (r: Result<(), PersistenceError>)
    ensures
        r == state_transition_check(aggregate, id, stored_version, proposed_version, allowed),
        r is Ok ==> proposed_version == stored_version + 1 && allowed,
{
    let expected_version = proposed_version.saturating_sub(1);
    if stored_version != expected_version {
        return Err(PersistenceError::VersionConflict {
            aggregate,
            id,
            expected: expected_version,
            actual: stored_version,
        });
    }
    if proposed_version != stored_version.saturating_add(1) || !allowed {
        return Err(PersistenceError::InvalidPersistedTransition(aggregate));
    }
    Ok(())
}

/// The outcome of writing a run whose state may be unchanged (a replay at
/// the same version) or must advance by one permitted step.
pub open spec fn versioned_transition_check(
    aggregate: &'static str,
    id: u128,
    stored_state: RunState,
    proposed_state: RunState,
    stored_version: u64,
    proposed_version: u64,
    allowed: bool,
) -> Result<(), PersistenceError> {
    let expected = if stored_state == proposed_state { proposed_version } else { pred_sat(proposed_version) };
    if stored_version != expected {
        Err(PersistenceError::VersionConflict { aggregate, id, expected, actual: stored_version })
    } else if stored_state == proposed_state {
        Ok(())
    } else if proposed_version != succ_sat(stored_version) || !allowed {
        Err(PersistenceError::InvalidPersistedTransition(aggregate))
    } else {
        Ok(())
    }
}

/// Checks a proposed run write against the stored state and version.
pub fn validate_versioned_transition(
    aggregate: &'static str,
    id: u128,
    stored_state: RunState,
    proposed_state: RunState,
    stored_version: u64,
    proposed_version: u64,
    allowed: bool,
) -> (r: Result<(), PersistenceError>)
    ensures
        r == versioned_transition_check(aggregate, id, stored_state, proposed_state, stored_version, proposed_version, allowed),
        r is Ok ==> (stored_state == proposed_state && proposed_version == stored_version)
            || (stored_state != proposed_state && proposed_version == stored_version + 1 && allowed),
{
    let same = stored_state == proposed_state;
    let expected_version = if same { proposed_version } else { proposed_version.saturating_sub(1) };
    if stored_version != expected_version {
        return Err(PersistenceError::VersionConflict {
            aggregate,
            id,
            expected: expected_version,
            actual: stored_version,
        });
    }
    if same {
        if proposed_version != stored_version {
            return Err(PersistenceError::InvalidPersistedTransition(aggregate));
        }
        return Ok(());
    }
    if proposed_version != stored_version.saturating_add(1) || !allowed {
        return Err(PersistenceError::InvalidPersistedTransition(aggregate));
    }
    Ok(())
}

/// One-step worktree state changes the store accepts.
pub open spec fn worktree_step_allowed(from: WorktreeState, to: WorktreeState) -> bool {
    match (from, to) {
        (WorktreeState::Creating, WorktreeState::Ready) => true,
        (WorktreeState::Creating, WorktreeState::Failed) => true,
        (WorktreeState::Ready, WorktreeState::Removing) => true,
        (WorktreeState::Ready, WorktreeState::Failed) => true,
        (WorktreeState::Ready, WorktreeState::Quarantined) => true,
        (WorktreeState::Removing, WorktreeState::Removed) => true,
        (WorktreeState::Removing, WorktreeState::Ready) => true,
        (WorktreeState::Removing, WorktreeState::Failed) => true,
        (WorktreeState::Failed, WorktreeState::Removing) => true,
        (WorktreeState::Failed, WorktreeState::Quarantined) => true,
        _ => false,
    }
}

/// A removal that passes through `Removing` in one write: from `Ready` or
/// `Failed` straight to `Removed`, two versions later.
pub open spec fn worktree_double_step(from: WorktreeState, to: WorktreeState) -> bool {
    to == WorktreeState::Removed && (from == WorktreeState::Ready || from == WorktreeState::Failed)
}

/// The outcome of writing a proposed worktree over the stored one.
pub open spec fn worktree_transition_check(stored: WorktreeRecord, proposed: WorktreeRecord) -> Result<
    (),
    PersistenceError,
> {
    if stored.id != proposed.id || stored.changeset_id != proposed.changeset_id {
        Err(PersistenceError::CorruptOwnership("worktree"))
    } else {
        let expected = if stored.state == proposed.state {
            proposed.version
        } else if worktree_double_step(stored.state, proposed.state) {
            pred_sat(pred_sat(proposed.version))
        } else {
            pred_sat(proposed.version)
        };
        let delta = if proposed.version >= stored.version { proposed.version - stored.version } else { 0 };
        if stored.version != expected {
            Err(PersistenceError::VersionConflict {
                aggregate: "worktree",
                id: proposed.id,
                expected,
                actual: stored.version,
            })
        } else if stored.state == proposed.state {
            Err(PersistenceError::InvalidPersistedTransition("worktree"))
        } else if worktree_double_step(stored.state, proposed.state) {
            if delta == 2 { Ok(()) } else { Err(PersistenceError::InvalidPersistedTransition("worktree")) }
        } else if delta == 1 && worktree_step_allowed(stored.state, proposed.state) {
            Ok(())
        } else {
            Err(PersistenceError::InvalidPersistedTransition("worktree"))
        }
    }
}

/// Checks a proposed worktree write against the stored worktree.
pub fn validate_worktree_transition(stored: &WorktreeRecord, proposed: &WorktreeRecord) -> (r: Result<
    (),
    PersistenceError,
>)
    ensures
        r == worktree_transition_check(*stored, *proposed),
{
    if stored.id != proposed.id || stored.changeset_id != proposed.changeset_id {
        return Err(PersistenceError::CorruptOwnership("worktree"));
    }
    let same = stored.state == proposed.state;
    let double = proposed.state == WorktreeState::Removed
        && (stored.state == WorktreeState::Ready || stored.state == WorktreeState::Failed);
    let expected_version = if same {
        proposed.version
    } else if double {
        proposed.version.saturating_sub(2)
    } else {
        proposed.version.saturating_sub(1)
    };
    if stored.version != expected_version {
        return Err(PersistenceError::VersionConflict {
            aggregate: "worktree",
            id: proposed.id,
            expected: expected_version,
            actual: stored.version,
        });
    }
    let version_delta = proposed.version.saturating_sub(stored.version);
    let valid = if same {
        false
    } else if double {
        version_delta == 2
    } else {
        version_delta == 1 && match (stored.state, proposed.state) {
            (WorktreeState::Creating, WorktreeState::Ready) => true,
            (WorktreeState::Creating, WorktreeState::Failed) => true,
            (WorktreeState::Ready, WorktreeState::Removing) => true,
            (WorktreeState::Ready, WorktreeState::Failed) => true,
            (WorktreeState::Ready, WorktreeState::Quarantined) => true,
            (WorktreeState::Removing, WorktreeState::Removed) => true,
            (WorktreeState::Removing, WorktreeState::Ready) => true,
            (WorktreeState::Removing, WorktreeState::Failed) => true,
            (WorktreeState::Failed, WorktreeState::Removing) => true,
            (WorktreeState::Failed, WorktreeState::Quarantined) => true,
            _ => false,
        }
    };
    if !valid {
        return Err(PersistenceError::InvalidPersistedTransition("worktree"));
    }
    Ok(())
}

/// An accepted worktree write changes the state and advances the version:
/// by one for a single step, by two for a removal through `Removing`.
pub proof fn lemma_worktree_transition_advances(stored: WorktreeRecord, proposed: WorktreeRecord)
    requires
        worktree_transition_check(stored, proposed) is Ok,
    ensures
        stored.id == proposed.id,
        stored.changeset_id == proposed.changeset_id,
        stored.state != proposed.state,
        worktree_double_step(stored.state, proposed.state) ==> proposed.version == stored.version + 2,
        !worktree_double_step(stored.state, proposed.state) ==> proposed.version == stored.version + 1
            && worktree_step_allowed(stored.state, proposed.state),
{
}

/// Replaying a worktree write that is already stored is not a transition.
pub proof fn lemma_worktree_replay_is_not_a_transition(stored: WorktreeRecord)
    ensures
        worktree_transition_check(stored, stored)
            == Err::<(), PersistenceError>(PersistenceError::InvalidPersistedTransition("worktree")),
{
}

/// One conditional write of a worktree: the version the stored row must
/// still have, and the state and version written, recorded by an event
/// named after the state.
#[derive(Debug, Clone, Copy, PartialEq, Eq, Structural)]
pub struct WorktreeWrite {
    pub expected_version: u64,
    pub state: WorktreeState,
    pub version: u64,
}

/// The writes that store `proposed` over `stored`: none when the proposed
/// worktree is the stored one in every field (`identical`), the removal
/// step through `Removing` first when the write advances the version by
/// two, and otherwise the proposed worktree alone.
pub open spec fn worktree_writes(stored: WorktreeRecord, proposed: WorktreeRecord, identical: bool) -> Result<
    Seq<WorktreeWrite>,
    PersistenceError,
> {
    if identical {
        Ok(seq![])
    } else {
        match worktree_transition_check(stored, proposed) {
            Err(e) => Err(e),
            Ok(()) => if proposed.version as int == stored.version + 2 {
                Ok(seq![
                    WorktreeWrite {
                        expected_version: stored.version,
                        state: WorktreeState::Removing,
                        version: (stored.version + 1) as u64,
                    },
                    WorktreeWrite {
                        expected_version: (stored.version + 1) as u64,
                        state: proposed.state,
                        version: proposed.version,
                    },
                ])
            } else {
                Ok(seq![
                    WorktreeWrite { expected_version: stored.version, state: proposed.state, version: proposed.version },
                ])
            },
        }
    }
}

/// Plans the update of a stored worktree: a write that changes nothing is
/// accepted without any write or event; otherwise the transition is checked
/// and its writes are listed in order.
pub fn plan_worktree_update(stored: &WorktreeRecord, proposed: &WorktreeRecord, identical: bool) -> (r: Result<
    Vec<WorktreeWrite>,
    PersistenceError,
>)
    ensures
        match r {
            Ok(writes) => worktree_writes(*stored, *proposed, identical) == Ok::<Seq<WorktreeWrite>, PersistenceError>(writes@),
            Err(e) => worktree_writes(*stored, *proposed, identical) == Err::<Seq<WorktreeWrite>, PersistenceError>(e),
        },
{
    let mut writes: Vec<WorktreeWrite> = Vec::new();
    if identical {
        assert(writes@ =~= Seq::<WorktreeWrite>::empty());
        return Ok(writes);
    }
    validate_worktree_transition(stored, proposed)?;
    proof {
        lemma_worktree_transition_advances(*stored, *proposed);
    }
    if stored.version <= u64::MAX - 2 && proposed.version == stored.version + 2 {
        writes.push(WorktreeWrite {
            expected_version: stored.version,
            state: WorktreeState::Removing,
            version: stored.version + 1,
        });
        writes.push(WorktreeWrite {
            expected_version: stored.version + 1,
            state: proposed.state,
            version: proposed.version,
        });
    } else {
        writes.push(WorktreeWrite { expected_version: stored.version, state: proposed.state, version: proposed.version });
    }
    assert(worktree_writes(*stored, *proposed, identical) matches Ok(w) && w =~= writes@);
    Ok(writes)
}

/// The outcome of a conditional update that matched `changed` rows, given
/// the version found afterwards, if the row exists.
pub open spec fn versioned_update_check(
    aggregate: &'static str,
    id: u128,
    expected_version: u64,
    changed: usize,
    actual: Option<u64>,
) -> Result<(), PersistenceError> {
    if changed == 1 {
        Ok(())
    } else {
        match actual {
            Some(actual) => Err(PersistenceError::VersionConflict { aggregate, id, expected: expected_version, actual }),
            None => Err(PersistenceError::NotFound(aggregate)),
        }
    }
}

/// Interprets the row count of a version-guarded update.
pub fn check_versioned_update(
    aggregate: &'static str,
    id: u128,
    expected_version: u64,
    changed: usize,
    actual: Option<u64>,
) -> (r: Result<(), PersistenceError>)
    ensures
        r == versioned_update_check(aggregate, id, expected_version, changed, actual),
{
    if changed == 1 {
        return Ok(());
    }
    match actual {
        Some(actual) => Err(PersistenceError::VersionConflict { aggregate, id, expected: expected_version, actual }),
        None => Err(PersistenceError::NotFound(aggregate)),
    }
}

/// A handle on the SQLite database file that holds all durable state.
#[derive(Debug, Clone, PartialEq, Eq)]
pub struct SqliteStore {
    path: String,
}

impl SqliteStore {
    /// The database path.
    pub closed spec fn spec_path(&self) -> Seq<char> {
        self.path@
    }

    /// The database path.
    pub fn path(&self) -> (p: &str)
        ensures
            p@ == self.spec_path(),
    {
        self.path.as_str()
    }

    /// Opens the store at `path` given what was found in the database:
    /// returns the handle and the version to migrate from, or why the
    /// database cannot be used by this runtime.
    pub fn open(path: &str, probe: SchemaProbe) -> (r: Result<(SqliteStore, u32), PersistenceError>)
        ensures
            match migration_start(probe) {
                Ok(v) => r matches Ok((store, w)) && store.spec_path() == path@ && w == v,
                Err(e) => r == Err::<(SqliteStore, u32), PersistenceError>(e),
            },
    {
        let version = plan_migration(probe)?;
        Ok((SqliteStore { path: path.to_owned() }, version))
    }
}

/// What the store finds when it opens a database, before migrating.
#[derive(Debug, Clone, Copy, PartialEq, Eq)]
pub struct SchemaProbe {
    /// Highest version recorded in the migrations table, 0 if none.
    pub recorded_version: u32,
    /// The execution tables already exist.
    pub has_execution_schema: bool,
    /// The product tables already exist.
    pub has_product_schema: bool,
    /// The database's `user_version` pragma.
    pub legacy_version: u32,
}

/// The version the database is at before migrating, or why it cannot be
/// opened by this runtime.
pub open spec fn migration_start(probe: SchemaProbe) -> Result<u32, PersistenceError> {
    if probe.recorded_version == 0 && !probe.has_execution_schema && !probe.has_product_schema
        && probe.legacy_version > CURRENT_SCHEMA_VERSION {
        Err(PersistenceError::UnsupportedSchemaVersion {
            database: probe.legacy_version,
            runtime: CURRENT_SCHEMA_VERSION,
        })
    } else {
        let version = if probe.recorded_version > 0 {
            probe.recorded_version
        } else if probe.has_execution_schema {
            if probe.legacy_version < CURRENT_SCHEMA_VERSION { probe.legacy_version } else { CURRENT_SCHEMA_VERSION }
        } else {
            0
        };
        if version > CURRENT_SCHEMA_VERSION {
            Err(PersistenceError::UnsupportedSchemaVersion { database: version, runtime: CURRENT_SCHEMA_VERSION })
        } else {
            Ok(version)
        }
    }
}

/// Decides the version a database is at; the migrations from the next
/// version up to `CURRENT_SCHEMA_VERSION` are then applied in order.
pub fn plan_migration(probe: SchemaProbe) -> (r: Result<u32, PersistenceError>)
    ensures
        r == migration_start(probe),
        r is Ok ==> r.unwrap() <= CURRENT_SCHEMA_VERSION,
{
    if probe.recorded_version == 0 && !probe.has_execution_schema && !probe.has_product_schema
        && probe.legacy_version > CURRENT_SCHEMA_VERSION {
        return Err(PersistenceError::UnsupportedSchemaVersion {
            database: probe.legacy_version,
            runtime: CURRENT_SCHEMA_VERSION,
        });
    }
    let version = if probe.recorded_version > 0 {
        probe.recorded_version
    } else if probe.has_execution_schema {
        if probe.legacy_version < CURRENT_SCHEMA_VERSION { probe.legacy_version } else { CURRENT_SCHEMA_VERSION }
    } else {
        0
    };
    if version > CURRENT_SCHEMA_VERSION {
        return Err(PersistenceError::UnsupportedSchemaVersion { database: version, runtime: CURRENT_SCHEMA_VERSION });
    }
    Ok(version)
}

/// Once migrated, reopening plans no further migration; a database from a
/// newer runtime is never downgraded.
pub proof fn lemma_migration_is_idempotent_and_never_downgrades(probe: SchemaProbe)
    ensures
        probe.recorded_version == CURRENT_SCHEMA_VERSION ==> migration_start(probe) == Ok::<u32, PersistenceError>(CURRENT_SCHEMA_VERSION),
        probe.recorded_version > CURRENT_SCHEMA_VERSION ==> migration_start(probe) is Err,
        migration_start(probe) is Ok ==> migration_start(probe).unwrap() <= CURRENT_SCHEMA_VERSION,
{
}

/// Refuses a page size outside `1..=max`.
pub fn validate_page_limit(limit: usize, max: usize, what: &'static str) -> (r: Result<(), PersistenceError>)
    ensures
        r == (if limit == 0 || limit > max { Err(PersistenceError::ResourceLimit(what)) } else { Ok(()) }),
{
    if limit == 0 || limit > max {
        return Err(PersistenceError::ResourceLimit(what));
    }
    Ok(())
}

/// A stored semantic event row: its scalar columns, the size of its
/// serialized body, and the owner fields decoded from the body (or the
/// decoding failure).
pub struct EventRow {
    pub scalar_run_id: String,
    pub scalar_sequence: u64,
    pub body_bytes: usize,
    pub decoded: Result<(u128, u64), String>,
}

/// The view of an event row that the paging rule reads.
pub open spec fn event_row_view(row: EventRow) -> (Seq<char>, u64, nat, Result<(u128, u64), Seq<char>>) {
    (row.scalar_run_id@, row.scalar_sequence, row.body_bytes as nat, match row.decoded {
        Ok(v) => Ok(v),
        Err(m) => Err(m@),
    })
}

/// Why a page of events could not be assembled.
pub enum EventPageStop {
    /// The first event alone exceeds the byte budget, or sizes overflow.
    Bytes,
    /// The body of the row at this index could not be decoded.
    Undecodable(int),
    /// The row's owner fields disagree with the requested run.
    Ownership,
}

/// The number of rows that fit a page of at most `max_bytes` serialized
/// bytes, taking rows in order from `index` with `used` bytes already taken,
/// or why the page is refused.
pub open spec fn event_page_len(
    rows: Seq<(Seq<char>, u64, nat, Result<(u128, u64), Seq<char>>)>,
    run_id: u128,
    max_bytes: nat,
    index: int,
    used: nat,
) -> Result<nat, EventPageStop>
    decreases rows.len() - index,
{
    if index < 0 || index >= rows.len() {
        Ok(0)
    } else {
        let row = rows[index];
        let next = used + row.2;
        if next > usize::MAX {
            Err(EventPageStop::Bytes)
        } else if next > max_bytes {
            if index == 0 { Err(EventPageStop::Bytes) } else { Ok(0) }
        } else {
            match row.3 {
                Err(message) => Err(EventPageStop::Undecodable(index)),
                Ok(decoded) => {
                    if row.0 != uuid_text(run_id) || decoded.0 != run_id || decoded.1 != row.1 {
                        Err(EventPageStop::Ownership)
                    } else {
                        match event_page_len(rows, run_id, max_bytes, index + 1, next) {
                            Ok(n) => Ok(n + 1),
                            Err(e) => Err(e),
                        }
                    }
                },
            }
        }
    }
}

/// Decides how many of the rows (in sequence order, after the cursor) form
/// the next page of events of `run_id`, within `max_bytes` serialized bytes.
/// An over-budget first event, an undecodable body or a row owned by another
/// run refuses the page.
pub fn bounded_event_page(run_id: u128, rows: &[EventRow], max_bytes: usize) -> (r: Result<usize, PersistenceError>)
    ensures
        ({
            let views = rows@.map_values(|row: EventRow| event_row_view(row));
            match event_page_len(views, run_id, max_bytes as nat, 0, 0) {
                Ok(n) => r == Ok::<usize, PersistenceError>(n as usize),
                Err(EventPageStop::Bytes) => r == Err::<usize, PersistenceError>(PersistenceError::ResourceLimit("event page bytes")),
                Err(EventPageStop::Ownership) => r == Err::<usize, PersistenceError>(PersistenceError::CorruptOwnership("semantic event")),
                Err(EventPageStop::Undecodable(i)) => 0 <= i < rows@.len() && (r matches Err(PersistenceError::Json(m))
                    && rows@[i].decoded matches Err(original) && m@ == original@),
            }
        }),
{
    let ghost views = rows@.map_values(|row: EventRow| event_row_view(row));
    let expected = uuid_to_string(run_id);
    let mut used: usize = 0;
    let mut i: usize = 0;
    while i < rows.len()
        invariant
            views == rows@.map_values(|row: EventRow| event_row_view(row)),
            expected@ == uuid_text(run_id),
            i <= rows@.len(),
            used <= max_bytes,
            i == 0 ==> used == 0,
            event_page_len(views, run_id, max_bytes as nat, 0, 0) == (match event_page_len(views, run_id, max_bytes as nat, i as int, used as nat) {
                Ok(n) => Ok::<nat, EventPageStop>(n + i as nat),
                Err(e) => Err(e),
            }),
        decreases rows.len() - i,
    {
        let row = &rows[i];
        assert(views[i as int] == event_row_view(*row));
        let next = match used.checked_add(row.body_bytes) {
            Some(next) => next,
            None => return Err(PersistenceError::ResourceLimit("event page bytes")),
        };
        if next > max_bytes {
            if i == 0 {
                return Err(PersistenceError::ResourceLimit("event page bytes"));
            }
            return Ok(i);
        }
        match &row.decoded {
            Err(message) => return Err(PersistenceError::Json(message.clone())),
            Ok(decoded) => {
                if row.scalar_run_id != expected || decoded.0 != run_id || decoded.1 != row.scalar_sequence {
                    return Err(PersistenceError::CorruptOwnership("semantic event"));
                }
            },
        }
        used = next;
        i = i + 1;
    }
    Ok(i)
}

/// Where a run stands after a restart.
#[derive(Debug, Clone, Copy, PartialEq, Eq, Structural)]
pub enum RecoveryDisposition {
    /// Queued or reviewable runs are left as they are and may continue.
    Recoverable,
    /// Running or approval-waiting runs are interrupted.
    Interrupted,
    /// Starting runs are failed.
    Failed,
    /// Finished runs are left as they are.
    Terminal,
}

/// The documented restart result for each run state.
pub open spec fn disposition_of(state: RunState) -> RecoveryDisposition {
    match state {
        RunState::Starting => RecoveryDisposition::Failed,
        RunState::Running | RunState::AwaitingApproval => RecoveryDisposition::Interrupted,
        RunState::Queued | RunState::Reviewable => RecoveryDisposition::Recoverable,
        RunState::Completed | RunState::Interrupted | RunState::Failed => RecoveryDisposition::Terminal,
    }
}

/// The restart result for a run in `state`.
pub fn recovery_disposition(state: RunState) -> (d: RecoveryDisposition)
    ensures
        d == disposition_of(state),
{
    match state {
        RunState::Starting => RecoveryDisposition::Failed,
        RunState::Running | RunState::AwaitingApproval => RecoveryDisposition::Interrupted,
        RunState::Queued | RunState::Reviewable => RecoveryDisposition::Recoverable,
        RunState::Completed | RunState::Interrupted | RunState::Failed => RecoveryDisposition::Terminal,
    }
}

/// The state a run is moved to by restart recovery, if it is moved.
pub open spec fn recovered_state(state: RunState) -> Option<RunState> {
    match disposition_of(state) {
        RecoveryDisposition::Failed => Some(RunState::Failed),
        RecoveryDisposition::Interrupted => Some(RunState::Interrupted),
        _ => None,
    }
}

/// The runs of each restart result, in the order the runs were listed.
pub struct RecoveryPlan {
    pub recoverable: Vec<u128>,
    pub interrupted: Vec<u128>,
    pub failed: Vec<u128>,
    pub terminal: Vec<u128>,
}

/// The ids of the listed runs whose state has disposition `d`, in order.
pub open spec fn ids_with(runs: Seq<(u128, RunState)>, d: RecoveryDisposition) -> Seq<u128>
    decreases runs.len(),
{
    if runs.len() == 0 {
        seq![]
    } else {
        let rest = ids_with(runs.drop_last(), d);
        if disposition_of(runs.last().1) == d { rest.push(runs.last().0) } else { rest }
    }
}

/// Sorts runs by their restart result, keeping their order.
pub fn plan_recovery(runs: &[(u128, RunState)]) -> (plan: RecoveryPlan)
    ensures
        plan.recoverable@ == ids_with(runs@, RecoveryDisposition::Recoverable),
        plan.interrupted@ == ids_with(runs@, RecoveryDisposition::Interrupted),
        plan.failed@ == ids_with(runs@, RecoveryDisposition::Failed),
        plan.terminal@ == ids_with(runs@, RecoveryDisposition::Terminal),
{
    let mut plan = RecoveryPlan {
        recoverable: Vec::new(),
        interrupted: Vec::new(),
        failed: Vec::new(),
        terminal: Vec::new(),
    };
    let mut i: usize = 0;
    while i < runs.len()
        invariant
            i <= runs@.len(),
            plan.recoverable@ == ids_with(runs@.take(i as int), RecoveryDisposition::Recoverable),
            plan.interrupted@ == ids_with(runs@.take(i as int), RecoveryDisposition::Interrupted),
            plan.failed@ == ids_with(runs@.take(i as int), RecoveryDisposition::Failed),
            plan.terminal@ == ids_with(runs@.take(i as int), RecoveryDisposition::Terminal),
        decreases runs.len() - i,
    {
        let (id, state) = runs[i];
        proof {
            assert(runs@.take(i + 1).drop_last() =~= runs@.take(i as int));
            assert(runs@.take(i + 1).last() == (id, state));
        }
        match recovery_disposition(state) {
            RecoveryDisposition::Recoverable => plan.recoverable.push(id),
            RecoveryDisposition::Interrupted => plan.interrupted.push(id),
            RecoveryDisposition::Failed => plan.failed.push(id),
            RecoveryDisposition::Terminal => plan.terminal.push(id),
        }
        i = i + 1;
    }
    assert(runs@.take(runs@.len() as int) =~= runs@);
    plan
}

/// The lifecycle events restart recovery appends, in order: for each run it
/// moves, given with the last sequence number among its events (0 when it
/// has none), the event at the next sequence number that records the
/// state it is moved to.
pub open spec fn recovery_event_list(runs: Seq<(u128, RunState, u64)>) -> Seq<(u128, u64, RunState)>
    decreases runs.len(),
{
    if runs.len() == 0 {
        seq![]
    } else {
        let rest = recovery_event_list(runs.drop_last());
        let (id, state, last) = runs.last();
        match recovered_state(state) {
            Some(next) => rest.push((id, (last + 1) as u64, next)),
            None => rest,
        }
    }
}

/// The lifecycle events restart recovery appends for the listed runs, each
/// given with the last sequence number among its events.
pub fn recovery_events(runs: &[(u128, RunState, u64)]) -> (events: Vec<(u128, u64, RunState)>)
    requires
        forall|i: int| 0 <= i < runs@.len() ==> (#[trigger] runs@[i]).2 < u64::MAX,
    ensures
        events@ == recovery_event_list(runs@),
{
    let mut events: Vec<(u128, u64, RunState)> = Vec::new();
    let mut i: usize = 0;
    while i < runs.len()
        invariant
            i <= runs@.len(),
            forall|k: int| 0 <= k < runs@.len() ==> (#[trigger] runs@[k]).2 < u64::MAX,
            events@ == recovery_event_list(runs@.take(i as int)),
        decreases runs.len() - i,
    {
        let (id, state, last) = runs[i];
        proof {
            assert(runs@.take(i + 1).drop_last() =~= runs@.take(i as int));
            assert(runs@.take(i + 1).last() == runs@[i as int]);
        }
        match state {
            RunState::Starting => events.push((id, last + 1, RunState::Failed)),
            RunState::Running | RunState::AwaitingApproval => events.push((id, last + 1, RunState::Interrupted)),
            _ => {},
        }
        i = i + 1;
    }
    assert(runs@.take(runs@.len() as int) =~= runs@);
    events
}

/// Every run state has exactly one restart result, and recovery moves a run
/// only out of an active state, into a terminal one.
pub proof fn lemma_every_state_has_one_disposition(state: RunState)
    ensures
        (disposition_of(state) == RecoveryDisposition::Recoverable) as int
            + (disposition_of(state) == RecoveryDisposition::Interrupted) as int
            + (disposition_of(state) == RecoveryDisposition::Failed) as int
            + (disposition_of(state) == RecoveryDisposition::Terminal) as int == 1,
        recovered_state(state) is Some ==> disposition_of(recovered_state(state).unwrap()) == RecoveryDisposition::Terminal,
        disposition_of(state) == RecoveryDisposition::Terminal ==> recovered_state(state) is None,
{
}

/// Restart recovery puts every listed run in exactly one of its lists: the
/// list sizes add up to the number of runs.
pub proof fn lemma_recovery_plan_partitions(runs: Seq<(u128, RunState)>)
    ensures
        ids_with(runs, RecoveryDisposition::Recoverable).len() + ids_with(runs, RecoveryDisposition::Interrupted).len()
            + ids_with(runs, RecoveryDisposition::Failed).len() + ids_with(runs, RecoveryDisposition::Terminal).len()
            == runs.len(),
    decreases runs.len(),
{
    if runs.len() > 0 {
        lemma_recovery_plan_partitions(runs.drop_last());
    }
}

/// The listed runs as restart recovery leaves them: each run that
/// recovery moves is in its recovered state, the others are unchanged.
pub open spec fn after_recovery(runs: Seq<(u128, RunState)>) -> Seq<(u128, RunState)> {
    runs.map_values(|r: (u128, RunState)| match recovered_state(r.1) {
        Some(s) => (r.0, s),
        None => r,
    })
}

/// A second restart recovery right after the first finds nothing to fail
/// or interrupt and moves no run: the recoverable runs are the same, and
/// the finished runs are those that were finished, failed or interrupted.
pub proof fn lemma_recovery_is_idempotent(runs: Seq<(u128, RunState)>)
    ensures
        ids_with(after_recovery(runs), RecoveryDisposition::Failed) == Seq::<u128>::empty(),
        ids_with(after_recovery(runs), RecoveryDisposition::Interrupted) == Seq::<u128>::empty(),
        ids_with(after_recovery(runs), RecoveryDisposition::Recoverable)
            == ids_with(runs, RecoveryDisposition::Recoverable),
        ids_with(after_recovery(runs), RecoveryDisposition::Terminal).to_set()
            == ids_with(runs, RecoveryDisposition::Terminal).to_set()
                + ids_with(runs, RecoveryDisposition::Failed).to_set()
                + ids_with(runs, RecoveryDisposition::Interrupted).to_set(),
        after_recovery(after_recovery(runs)) == after_recovery(runs),
    decreases runs.len(),
{
    broadcast use Seq::lemma_push_to_set_commute;
    let after = after_recovery(runs);
    if runs.len() == 0 {
        assert(after =~= runs);
        assert(Seq::<u128>::empty().to_set() =~= Set::<u128>::empty());
        assert(after_recovery(after) =~= after);
    } else {
        let front = runs.drop_last();
        lemma_recovery_is_idempotent(front);
        assert(after.drop_last() =~= after_recovery(front));
        assert(after_recovery(after) =~= after) by {
            assert forall|k: int| 0 <= k < after.len() implies after_recovery(after)[k] == after[k] by {
                lemma_every_state_has_one_disposition(runs[k].1);
            }
        }
        lemma_every_state_has_one_disposition(runs.last().1);
        let t = ids_with(front, RecoveryDisposition::Terminal).to_set();
        let f = ids_with(front, RecoveryDisposition::Failed).to_set();
        let n = ids_with(front, RecoveryDisposition::Interrupted).to_set();
        let id = runs.last().0;
        assert((t + f + n).insert(id) =~= t.insert(id) + f + n);
        assert((t + f + n).insert(id) =~= t + f.insert(id) + n);
        assert((t + f + n).insert(id) =~= t + f + n.insert(id));
    }
}

/// The worktree lifecycle: every documented one-step move (`Creating` to
/// `Ready` or `Failed`; `Ready` to `Removing`, `Failed` or `Quarantined`;
/// `Removing` to `Removed`, `Ready` or `Failed`; `Failed` to `Removing` or
/// `Quarantined`) is accepted when it keeps the worktree's ids and advances
/// its version by exactly one.
pub proof fn lemma_worktree_lifecycle_moves_are_accepted(stored: WorktreeRecord, proposed: WorktreeRecord)
    requires
        proposed.id == stored.id,
        proposed.changeset_id == stored.changeset_id,
        proposed.version == stored.version + 1,
        ({
            let (f, t) = (stored.state, proposed.state);
            ||| f == WorktreeState::Creating && (t == WorktreeState::Ready || t == WorktreeState::Failed)
            ||| f == WorktreeState::Ready && (t == WorktreeState::Removing || t == WorktreeState::Failed
                || t == WorktreeState::Quarantined)
            ||| f == WorktreeState::Removing && (t == WorktreeState::Removed || t == WorktreeState::Ready
                || t == WorktreeState::Failed)
            ||| f == WorktreeState::Failed && (t == WorktreeState::Removing || t == WorktreeState::Quarantined)
        }),
    ensures
        worktree_transition_check(stored, proposed) == Ok::<(), PersistenceError>(()),
{
}

/// No other change of a worktree's state is accepted, except a removal
/// from `Ready` or `Failed` straight to `Removed` (through `Removing`):
/// in particular nothing leaves `Removed` or `Quarantined`, and nothing
/// returns to `Creating`.
pub proof fn lemma_worktree_moves_outside_the_lifecycle_are_refused(stored: WorktreeRecord, proposed: WorktreeRecord)
    requires
        stored.state != proposed.state,
        ({
            let (f, t) = (stored.state, proposed.state);
            !(f == WorktreeState::Creating && (t == WorktreeState::Ready || t == WorktreeState::Failed))
            && !(f == WorktreeState::Ready && (t == WorktreeState::Removing || t == WorktreeState::Failed
                || t == WorktreeState::Quarantined || t == WorktreeState::Removed))
            && !(f == WorktreeState::Removing && (t == WorktreeState::Removed || t == WorktreeState::Ready
                || t == WorktreeState::Failed))
            && !(f == WorktreeState::Failed && (t == WorktreeState::Removing || t == WorktreeState::Quarantined
                || t == WorktreeState::Removed))
        }),
    ensures
        worktree_transition_check(stored, proposed) is Err,
{
}

/// Versioned writes: a permitted change of state that advances the stored
/// version by exactly one is accepted, and so is a replay of the stored
/// state at the stored version; a writer that read an older or newer
/// version than the stored one is refused with a version conflict that
/// reports the stored version.
pub proof fn lemma_versioned_writes(
    aggregate: &'static str,
    id: u128,
    stored_state: RunState,
    proposed_state: RunState,
    stored_version: u64,
    proposed_version: u64,
    allowed: bool,
)
    ensures
        stored_state != proposed_state && allowed && proposed_version == stored_version + 1
            ==> versioned_transition_check(aggregate, id, stored_state, proposed_state, stored_version, proposed_version,
            allowed) == Ok::<(), PersistenceError>(()),
        stored_state == proposed_state && proposed_version == stored_version ==> versioned_transition_check(aggregate,
            id, stored_state, proposed_state, stored_version, proposed_version, allowed) == Ok::<(), PersistenceError>(()),
        stored_state != proposed_state && proposed_version > 0 && stored_version != proposed_version - 1
            ==> versioned_transition_check(aggregate, id, stored_state, proposed_state, stored_version, proposed_version,
            allowed) == Err::<(), PersistenceError>(PersistenceError::VersionConflict {
                aggregate,
                id,
                expected: (proposed_version - 1) as u64,
                actual: stored_version,
            }),
        allowed && proposed_version == stored_version + 1 ==> state_transition_check(aggregate, id, stored_version,
            proposed_version, allowed) == Ok::<(), PersistenceError>(()),
        !allowed ==> state_transition_check(aggregate, id, stored_version, proposed_version, allowed) is Err,
{
}

} // verus!
