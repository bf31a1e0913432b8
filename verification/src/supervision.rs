//! Durable records of supervised processes and of recovery actions, and the
//! owner and duplicate rules of saved findings.

use vstd::prelude::*;
use crate::digest::{parse_uuid, parse_uuid_text};
use crate::error::PersistenceError;
use crate::finalization::ChangesetState;
use crate::text::str_equals;

verus! {

/// Lifecycle of a supervised process.
#[derive(Debug, Clone, Copy, PartialEq, Eq, Structural)]
pub enum SupervisionState {
    Prepared,
    Running,
    Terminated,
}

/// What identifies the process a supervision record watches; none of it
/// may change over the record's life.
#[derive(Debug, Clone, PartialEq, Eq)]
pub struct SupervisionIdentity {
    pub pid: u32,
    pub process_group: u32,
    pub process_start: u64,
    pub executable: String,
    pub command_digest: String,
    pub environment_digest: String,
    pub confinement: String,
    pub supervision_token: String,
}

/// A supervision record's metadata: its identifier, the process identity,
/// its state and, once terminated, why.
#[derive(Debug, Clone, PartialEq, Eq)]
pub struct SupervisionMetadata {
    pub supervision_id: u128,
    pub identity: SupervisionIdentity,
    pub state: SupervisionState,
    pub termination_reason: Option<String>,
}

/// A stored supervision record of a run.
#[derive(Debug, Clone, PartialEq, Eq)]
pub struct ProcessSupervisionRecord {
    pub run_id: u128,
    pub metadata: SupervisionMetadata,
    pub updated_at_unix_ms: i64,
}

/// Two metadata describe the same supervised process.
pub open spec fn same_identity(a: SupervisionMetadata, b: SupervisionMetadata) -> bool {
    &&& a.supervision_id == b.supervision_id
    &&& a.identity.pid == b.identity.pid
    &&& a.identity.process_group == b.identity.process_group
    &&& a.identity.process_start == b.identity.process_start
    &&& a.identity.executable@ == b.identity.executable@
    &&& a.identity.command_digest@ == b.identity.command_digest@
    &&& a.identity.environment_digest@ == b.identity.environment_digest@
    &&& a.identity.confinement@ == b.identity.confinement@
    &&& a.identity.supervision_token@ == b.identity.supervision_token@
}

/// Whether a proposed record describes the same process as the stored one.
pub fn same_process_supervision_identity(stored: &SupervisionMetadata, proposed: &SupervisionMetadata) -> (r: bool)
    ensures
        r == same_identity(*stored, *proposed),
{
    stored.supervision_id == proposed.supervision_id && stored.identity.pid == proposed.identity.pid
        && stored.identity.process_group == proposed.identity.process_group
        && stored.identity.process_start == proposed.identity.process_start
        && str_equals(stored.identity.executable.as_str(), proposed.identity.executable.as_str())
        && str_equals(stored.identity.command_digest.as_str(), proposed.identity.command_digest.as_str())
        && str_equals(stored.identity.environment_digest.as_str(), proposed.identity.environment_digest.as_str())
        && str_equals(stored.identity.confinement.as_str(), proposed.identity.confinement.as_str())
        && str_equals(stored.identity.supervision_token.as_str(), proposed.identity.supervision_token.as_str())
}

/// A record's metadata carries a termination reason exactly when it is
/// terminated.
pub open spec fn reason_matches_state(m: SupervisionMetadata) -> bool {
    (m.state == SupervisionState::Terminated) == (m.termination_reason is Some)
}

/// Only a prepared record without a termination reason may be inserted.
pub fn validate_prepared_supervision(metadata: &SupervisionMetadata) -> (r: Result<(), PersistenceError>)
    ensures
        r == if metadata.state == SupervisionState::Prepared && metadata.termination_reason is None {
            Ok::<(), PersistenceError>(())
        } else {
            Err(PersistenceError::InvalidProcessSupervisionTransition)
        },
{
    if metadata.state != SupervisionState::Prepared || metadata.termination_reason.is_some() {
        return Err(PersistenceError::InvalidProcessSupervisionTransition);
    }
    Ok(())
}

/// The outcome of checking a proposed transition to `next` before the
/// stored record is read: the proposal must be in state `next`, with a
/// termination reason exactly when terminated.
pub fn validate_supervision_proposal(proposed: &SupervisionMetadata, next: SupervisionState) -> (r: Result<(), PersistenceError>)
    ensures
        r == if proposed.state == next && reason_matches_state(*proposed) {
            Ok::<(), PersistenceError>(())
        } else {
            Err(PersistenceError::InvalidProcessSupervisionTransition)
        },
{
    let terminated = proposed.state == SupervisionState::Terminated;
    if proposed.state != next || terminated != proposed.termination_reason.is_some() {
        return Err(PersistenceError::InvalidProcessSupervisionTransition);
    }
    Ok(())
}

/// The states a record may leave to reach `next`: a record starts running
/// from prepared, and terminates from prepared or running.
pub open spec fn supervision_source_allowed(stored: SupervisionState, next: SupervisionState) -> bool {
    match next {
        SupervisionState::Running => stored == SupervisionState::Prepared,
        SupervisionState::Terminated => stored == SupervisionState::Prepared || stored == SupervisionState::Running,
        SupervisionState::Prepared => false,
    }
}

/// The outcome of moving a stored supervision record to the proposed
/// metadata's state at `updated_at_unix_ms`: the proposal must be in state
/// `next` with a termination reason exactly when terminated, the stored
/// record must be in a state that may move there and not be newer, and the
/// process identity must not change.
pub open spec fn supervision_transition_check(
    stored: ProcessSupervisionRecord,
    proposed: SupervisionMetadata,
    next: SupervisionState,
    updated_at_unix_ms: i64,
) -> Result<(), PersistenceError> {
    if proposed.state != next || !reason_matches_state(proposed) || !supervision_source_allowed(stored.metadata.state, next)
        || stored.updated_at_unix_ms > updated_at_unix_ms || !same_identity(stored.metadata, proposed) {
        Err(PersistenceError::InvalidProcessSupervisionTransition)
    } else {
        Ok(())
    }
}

/// Checks a supervision record transition to `next` (running or
/// terminated).
pub fn check_supervision_transition(
    stored: &ProcessSupervisionRecord,
    proposed: &SupervisionMetadata,
    next: SupervisionState,
    updated_at_unix_ms: i64,
) -> (r: Result<(), PersistenceError>)
    ensures
        r == supervision_transition_check(*stored, *proposed, next, updated_at_unix_ms),
{
    let terminated = proposed.state == SupervisionState::Terminated;
    let reason_ok = terminated == proposed.termination_reason.is_some();
    let source_ok = match next {
        SupervisionState::Running => stored.metadata.state == SupervisionState::Prepared,
        SupervisionState::Terminated => stored.metadata.state == SupervisionState::Prepared
            || stored.metadata.state == SupervisionState::Running,
        SupervisionState::Prepared => false,
    };
    if proposed.state != next || !reason_ok || !source_ok || stored.updated_at_unix_ms > updated_at_unix_ms
        || !same_process_supervision_identity(&stored.metadata, proposed)
    {
        return Err(PersistenceError::InvalidProcessSupervisionTransition);
    }
    Ok(())
}

/// The record that a successful transition stores.
pub fn transitioned_record(run_id: u128, proposed: &SupervisionMetadata, updated_at_unix_ms: i64) -> (r: ProcessSupervisionRecord)
    ensures
        r.run_id == run_id,
        r.metadata == *proposed,
        r.updated_at_unix_ms == updated_at_unix_ms,
{
    ProcessSupervisionRecord { run_id, metadata: clone_metadata(proposed), updated_at_unix_ms }
}

fn clone_identity(i: &SupervisionIdentity) -> (r: SupervisionIdentity)
    ensures
        r == *i,
{
    SupervisionIdentity {
        pid: i.pid,
        process_group: i.process_group,
        process_start: i.process_start,
        executable: i.executable.clone(),
        command_digest: i.command_digest.clone(),
        environment_digest: i.environment_digest.clone(),
        confinement: i.confinement.clone(),
        supervision_token: i.supervision_token.clone(),
    }
}

fn clone_metadata(m: &SupervisionMetadata) -> (r: SupervisionMetadata)
    ensures
        r == *m,
{
    let termination_reason = match &m.termination_reason {
        Some(t) => Some(t.clone()),
        None => None,
    };
    SupervisionMetadata {
        supervision_id: m.supervision_id,
        identity: clone_identity(&m.identity),
        state: m.state,
        termination_reason,
    }
}

/// A process may terminate at most once: a terminated record never
/// transitions again.
pub proof fn lemma_terminated_is_final(
    stored: ProcessSupervisionRecord,
    proposed: SupervisionMetadata,
    next: SupervisionState,
    updated_at_unix_ms: i64,
)
    requires
        stored.metadata.state == SupervisionState::Terminated,
    ensures
        supervision_transition_check(stored, proposed, next, updated_at_unix_ms) is Err,
{
}

/// The outcome of reading a supervision row: its identifier, run and state
/// columns and its timestamp must agree with the record inside it.
pub open spec fn supervision_row_check(
    scalar_id: Seq<char>,
    scalar_run_id: Seq<char>,
    scalar_state: SupervisionState,
    updated_at_unix_ms: i64,
    record: ProcessSupervisionRecord,
) -> bool {
    &&& parse_uuid_text(scalar_id) == Some(record.metadata.supervision_id)
    &&& parse_uuid_text(scalar_run_id) == Some(record.run_id)
    &&& scalar_state == record.metadata.state
    &&& updated_at_unix_ms == record.updated_at_unix_ms
}

/// Refuses a stored supervision row whose columns disagree with its body.
pub fn validate_process_supervision_record(
    scalar_id: &str,
    scalar_run_id: &str,
    scalar_state: SupervisionState,
    updated_at_unix_ms: i64,
    record: ProcessSupervisionRecord,
) -> (r: Result<ProcessSupervisionRecord, PersistenceError>)
    ensures
        supervision_row_check(scalar_id@, scalar_run_id@, scalar_state, updated_at_unix_ms, record) ==> r == Ok::<
            ProcessSupervisionRecord,
            PersistenceError,
        >(record),
        !supervision_row_check(scalar_id@, scalar_run_id@, scalar_state, updated_at_unix_ms, record) ==> r == Err::<
            ProcessSupervisionRecord,
            PersistenceError,
        >(PersistenceError::CorruptProcessSupervision),
{
    let id = parse_uuid(scalar_id);
    let run_id = parse_uuid(scalar_run_id);
    let agrees = match (id, run_id) {
        (Some(id), Some(run_id)) => record.run_id == run_id && record.metadata.supervision_id == id
            && record.metadata.state == scalar_state && record.updated_at_unix_ms == updated_at_unix_ms,
        _ => false,
    };
    if !agrees {
        return Err(PersistenceError::CorruptProcessSupervision);
    }
    Ok(record)
}

/// The status of a recorded recovery action.
#[derive(Debug, Clone, Copy, PartialEq, Eq, Structural)]
pub enum RecoveryActionStatus {
    Completed,
}

/// A recovery action recorded under its idempotency key; `action` is the
/// action's serialized form.
#[derive(Debug, Clone, PartialEq, Eq)]
pub struct RecoveryActionRecord {
    pub idempotency_key: String,
    pub run_id: Option<u128>,
    pub changeset_id: Option<u128>,
    pub status: RecoveryActionStatus,
    pub created_at_unix_ms: i64,
    pub action: String,
}

/// The record that recording a recovery action first writes.
pub open spec fn recorded_action(
    key: Seq<char>,
    run_id: Option<u128>,
    changeset_id: Option<u128>,
    action: Seq<char>,
    created_at_unix_ms: i64,
    r: RecoveryActionRecord,
) -> bool {
    &&& r.idempotency_key@ == key
    &&& r.run_id == run_id
    &&& r.changeset_id == changeset_id
    &&& r.status == RecoveryActionStatus::Completed
    &&& r.created_at_unix_ms == created_at_unix_ms
    &&& r.action@ == action
}

/// The record to write for a recovery action, refused without an
/// idempotency key.
pub fn new_recovery_action(
    idempotency_key: &str,
    run_id: Option<u128>,
    changeset_id: Option<u128>,
    action: &str,
    created_at_unix_ms: i64,
) -> (r: Result<RecoveryActionRecord, PersistenceError>)
    ensures
        idempotency_key@.len() == 0 ==> r == Err::<RecoveryActionRecord, PersistenceError>(
            PersistenceError::InvalidRecoveryAction,
        ),
        idempotency_key@.len() > 0 ==> r is Ok && recorded_action(
            idempotency_key@,
            run_id,
            changeset_id,
            action@,
            created_at_unix_ms,
            r->Ok_0,
        ),
{
    if idempotency_key.unicode_len() == 0 {
        return Err(PersistenceError::InvalidRecoveryAction);
    }
    Ok(RecoveryActionRecord {
        idempotency_key: idempotency_key.to_owned(),
        run_id,
        changeset_id,
        status: RecoveryActionStatus::Completed,
        created_at_unix_ms,
        action: action.to_owned(),
    })
}

/// A stored action under the same key answers a new request only if it
/// names the same run, changeset and action.
pub open spec fn same_recovery_request(stored: RecoveryActionRecord, run_id: Option<u128>, changeset_id: Option<u128>, action: Seq<char>) -> bool {
    stored.run_id == run_id && stored.changeset_id == changeset_id && stored.action@ == action
}

/// Answers a recorded recovery action with the record stored under its key:
/// the first record of that key stands, and a different request under the
/// same key conflicts.
pub fn settle_recovery_action(
    stored: RecoveryActionRecord,
    run_id: Option<u128>,
    changeset_id: Option<u128>,
    action: &str,
) -> (r: Result<RecoveryActionRecord, PersistenceError>)
    ensures
        same_recovery_request(stored, run_id, changeset_id, action@) ==> r == Ok::<
            RecoveryActionRecord,
            PersistenceError,
        >(stored),
        !same_recovery_request(stored, run_id, changeset_id, action@) ==> r == Err::<
            RecoveryActionRecord,
            PersistenceError,
        >(PersistenceError::RecoveryActionConflict),
{
    if stored.run_id != run_id || stored.changeset_id != changeset_id || !str_equals(stored.action.as_str(), action) {
        return Err(PersistenceError::RecoveryActionConflict);
    }
    Ok(stored)
}

/// Recording the same action twice under one key gives back the first
/// record: recovery actions are idempotent.
pub proof fn lemma_recovery_action_is_idempotent(
    first: RecoveryActionRecord,
    key: Seq<char>,
    run_id: Option<u128>,
    changeset_id: Option<u128>,
    action: Seq<char>,
    created_at_unix_ms: i64,
)
    requires
        recorded_action(key, run_id, changeset_id, action, created_at_unix_ms, first),
    ensures
        same_recovery_request(first, run_id, changeset_id, action),
{
}

/// The view of an optional identifier column.
pub open spec fn optional_id_text(t: Option<&str>) -> Option<Seq<char>> {
    match t {
        Some(v) => Some(v@),
        None => None,
    }
}

/// An optional identifier column reads as `id`.
pub open spec fn optional_id_agrees(column: Option<Seq<char>>, id: Option<u128>) -> bool {
    match column {
        None => id is None,
        Some(t) => parse_uuid_text(t) is Some && parse_uuid_text(t) == id,
    }
}


fn read_optional_id(column: Option<&str>) -> (r: Result<Option<u128>, ()>)
    ensures
        match column {
            None => r == Ok::<Option<u128>, ()>(None),
            Some(t) => match parse_uuid_text(t@) {
                Some(id) => r == Ok::<Option<u128>, ()>(Some(id)),
                None => r is Err,
            },
        },
{
    match column {
        None => Ok(None),
        Some(t) => match parse_uuid(t) {
            Some(id) => Ok(Some(id)),
            None => Err(()),
        },
    }
}

/// The outcome of reading a recovery action row: unreadable identifier
/// columns and columns that disagree with the record are corruption.
pub open spec fn recovery_row_check(
    scalar_key: Seq<char>,
    scalar_run_id: Option<Seq<char>>,
    scalar_changeset_id: Option<Seq<char>>,
    scalar_status: RecoveryActionStatus,
    created_at_unix_ms: i64,
    record: RecoveryActionRecord,
) -> bool {
    &&& record.idempotency_key@ == scalar_key
    &&& optional_id_agrees(scalar_run_id, record.run_id)
    &&& optional_id_agrees(scalar_changeset_id, record.changeset_id)
    &&& record.status == scalar_status
    &&& record.created_at_unix_ms == created_at_unix_ms
}

/// Refuses a stored recovery action whose columns disagree with its body.
pub fn validate_recovery_action_record(
    scalar_key: &str,
    scalar_run_id: Option<&str>,
    scalar_changeset_id: Option<&str>,
    scalar_status: RecoveryActionStatus,
    created_at_unix_ms: i64,
    record: RecoveryActionRecord,
) -> (r: Result<RecoveryActionRecord, PersistenceError>)
    ensures
        recovery_row_check(
            scalar_key@,
            optional_id_text(scalar_run_id),
            optional_id_text(scalar_changeset_id),
            scalar_status,
            created_at_unix_ms,
            record,
        ) ==> r == Ok::<RecoveryActionRecord, PersistenceError>(record),
        !recovery_row_check(
            scalar_key@,
            optional_id_text(scalar_run_id),
            optional_id_text(scalar_changeset_id),
            scalar_status,
            created_at_unix_ms,
            record,
        ) ==> r == Err::<RecoveryActionRecord, PersistenceError>(PersistenceError::CorruptRecoveryAction),
{
    let run_id = read_optional_id(scalar_run_id);
    let changeset_id = read_optional_id(scalar_changeset_id);
    let agrees = match (run_id, changeset_id) {
        (Ok(run_id), Ok(changeset_id)) => str_equals(record.idempotency_key.as_str(), scalar_key)
            && record.run_id == run_id && record.changeset_id == changeset_id && record.status == scalar_status
            && record.created_at_unix_ms == created_at_unix_ms,
        _ => false,
    };
    if !agrees {
        return Err(PersistenceError::CorruptRecoveryAction);
    }
    Ok(record)
}

/// The changeset that every finding of a batch belongs to.
pub open spec fn finding_owner_check(owners: Seq<u128>) -> Result<u128, PersistenceError> {
    if owners.len() == 0 {
        Err(PersistenceError::InvalidPersistedTransition("empty finding batch"))
    } else if exists|i: int| 0 <= i < owners.len() && #[trigger] owners[i] != owners[0] {
        Err(PersistenceError::MixedFindingOwners)
    } else {
        Ok(owners[0])
    }
}

/// Refuses an empty batch of findings, or one whose findings belong to
/// different changesets; `owners` holds each finding's changeset.
pub fn validate_finding_owners(owners: &[u128]) -> (r: Result<u128, PersistenceError>)
    ensures
        r == finding_owner_check(owners@),
{
    if owners.len() == 0 {
        return Err(PersistenceError::InvalidPersistedTransition("empty finding batch"));
    }
    let first = owners[0];
    let mut i: usize = 0;
    while i < owners.len()
        invariant
            0 < owners@.len(),
            first == owners@[0],
            i <= owners@.len(),
            forall|k: int| 0 <= k < i ==> #[trigger] owners@[k] == first,
        decreases owners.len() - i,
    {
        if owners[i] != first {
            return Err(PersistenceError::MixedFindingOwners);
        }
        i = i + 1;
    }
    Ok(first)
}

/// A finding as the duplicate rule sees it: its duplicate key (everything
/// but its identity and version) and its identifier.
pub type FindingEntry = (Seq<char>, u128);

/// The findings known under each duplicate key, later entries replacing
/// earlier ones.
pub open spec fn key_map(entries: Seq<FindingEntry>) -> Map<Seq<char>, u128>
    decreases entries.len(),
{
    if entries.len() == 0 {
        Map::empty()
    } else {
        key_map(entries.drop_last()).insert(entries.last().0, entries.last().1)
    }
}

/// No duplicate key occurs twice.
pub open spec fn distinct_keys(entries: Seq<FindingEntry>) -> bool {
    forall|i: int, j: int| 0 <= i < j < entries.len() ==> entries[i].0 != entries[j].0
}

/// What saving a batch of findings does, finding by finding: a finding
/// whose duplicate is already known is answered with the known one; a new
/// finding is refused once the changeset holds `max` findings, and is
/// otherwise inserted. The result holds the known findings afterwards, the
/// finding answered for each of the batch, and the positions inserted.
pub open spec fn finding_plan(known: Map<Seq<char>, u128>, batch: Seq<FindingEntry>, max: nat) -> Result<
    (Map<Seq<char>, u128>, Seq<u128>, Seq<int>),
    PersistenceError,
>
    decreases batch.len(),
{
    if batch.len() == 0 {
        Ok((known, seq![], seq![]))
    } else {
        match finding_plan(known, batch.drop_last(), max) {
            Err(e) => Err(e),
            Ok((m, canonical, inserted)) => {
                let k = batch.last().0;
                if m.contains_key(k) {
                    Ok((m, canonical.push(m[k]), inserted))
                } else if m.dom().len() >= max {
                    Err(PersistenceError::ResourceLimit("findings per changeset"))
                } else {
                    Ok((m.insert(k, batch.last().1), canonical.push(batch.last().1), inserted.push(batch.len() - 1)))
                }
            },
        }
    }
}

/// The answer to saving a batch: the finding that stands for each of the
/// batch, and the positions of the batch that are new and must be inserted.
#[derive(Debug, Clone, PartialEq, Eq)]
pub struct FindingPlan {
    pub canonical: Vec<u128>,
    pub inserted: Vec<usize>,
}

/// The view of finding entries.
pub open spec fn entries_view(v: Seq<(String, u128)>) -> Seq<FindingEntry> {
    v.map_values(|e: (String, u128)| (e.0@, e.1))
}

proof fn lemma_key_map_finite(s: Seq<FindingEntry>)
    ensures
        key_map(s).dom().finite(),
    decreases s.len(),
{
    if s.len() > 0 {
        lemma_key_map_finite(s.drop_last());
    }
}

proof fn lemma_key_map_lookup(s: Seq<FindingEntry>, k: Seq<char>)
    requires
        distinct_keys(s),
    ensures
        key_map(s).contains_key(k) <==> exists|j: int| 0 <= j < s.len() && s[j].0 == k,
        forall|j: int| 0 <= j < s.len() && s[j].0 == k ==> key_map(s)[k] == #[trigger] s[j].1,
        key_map(s).dom().len() == s.len(),
    decreases s.len(),
{
    if s.len() > 0 {
        let p = s.drop_last();
        assert(distinct_keys(p));
        lemma_key_map_lookup(p, k);
        lemma_key_map_lookup(p, s.last().0);
        lemma_key_map_finite(p);
        if key_map(p).contains_key(s.last().0) {
            let j = choose|j: int| 0 <= j < p.len() && p[j].0 == s.last().0;
            assert(s[j].0 == s[s.len() - 1].0);
        }
        if exists|j: int| 0 <= j < s.len() && s[j].0 == k {
            let j = choose|j: int| 0 <= j < s.len() && s[j].0 == k;
            if j < s.len() - 1 {
                assert(p[j].0 == k);
            }
        }
        assert forall|j: int| 0 <= j < s.len() && s[j].0 == k implies key_map(s)[k] == #[trigger] s[j].1 by {
            if j < s.len() - 1 {
                assert(p[j] == s[j]);
                assert(s[j].0 != s[s.len() - 1].0);
            }
        }
    }
}

proof fn lemma_key_map_update(s: Seq<FindingEntry>, j: int, v: u128)
    requires
        distinct_keys(s),
        0 <= j < s.len(),
    ensures
        key_map(s.update(j, (s[j].0, v))) == key_map(s).insert(s[j].0, v),
        distinct_keys(s.update(j, (s[j].0, v))),
    decreases s.len(),
{
    let k = s[j].0;
    let t = s.update(j, (k, v));
    let p = s.drop_last();
    if j == s.len() - 1 {
        assert(t.drop_last() =~= p);
        assert(key_map(t) =~= key_map(s).insert(k, v));
    } else {
        assert(t.drop_last() =~= p.update(j, (k, v)));
        assert(p[j].0 == k);
        lemma_key_map_update(p, j, v);
        assert(s.last().0 != k);
        assert(key_map(t) =~= key_map(s).insert(k, v));
    }
}

fn find_entry(known: &Vec<(String, u128)>, key: &str) -> (r: Option<usize>)
    ensures
        match r {
            Some(j) => j < known@.len() && entries_view(known@)[j as int].0 == key@,
            None => forall|j: int| 0 <= j < known@.len() ==> entries_view(known@)[j].0 != key@,
        },
{
    let mut j: usize = 0;
    while j < known.len()
        invariant
            j <= known@.len(),
            forall|i: int| 0 <= i < j ==> entries_view(known@)[i].0 != key@,
        decreases known.len() - j,
    {
        if str_equals(known[j].0.as_str(), key) {
            return Some(j);
        }
        j = j + 1;
    }
    None
}

/// Decides how a batch of findings is saved against those already stored
/// for the changeset (`existing`, in storage order): duplicates are answered
/// with the finding already known, and new findings are inserted until the
/// changeset holds `max` findings.
pub fn plan_findings(existing: &[(String, u128)], batch: &[(String, u128)], max: usize) -> (r: Result<
    FindingPlan,
    PersistenceError,
>)
    ensures
        match finding_plan(key_map(entries_view(existing@)), entries_view(batch@), max as nat) {
            Ok((_, canonical, inserted)) => r is Ok && r->Ok_0.canonical@ == canonical
                && r->Ok_0.inserted@.map_values(|i: usize| i as int) == inserted,
            Err(e) => r == Err::<FindingPlan, PersistenceError>(e),
        },
{
    let mut known: Vec<(String, u128)> = Vec::new();
    let mut i: usize = 0;
    proof {
        assert(entries_view(known@) =~= Seq::<FindingEntry>::empty());
        assert(entries_view(existing@).take(0) =~= Seq::<FindingEntry>::empty());
    }
    while i < existing.len()
        invariant
            i <= existing@.len(),
            distinct_keys(entries_view(known@)),
            key_map(entries_view(known@)) == key_map(entries_view(existing@).take(i as int)),
        decreases existing.len() - i,
    {
        let ghost before = entries_view(known@);
        proof {
            assert(entries_view(existing@).take(i + 1).drop_last() =~= entries_view(existing@).take(i as int));
        }
        let key = existing[i].0.as_str();
        let id = existing[i].1;
        match find_entry(&known, key) {
            Some(j) => {
                let owned = known[j].0.clone();
                known.set(j, (owned, id));
                proof {
                    assert(entries_view(known@) =~= before.update(j as int, (before[j as int].0, id)));
                    lemma_key_map_update(before, j as int, id);
                }
            },
            None => {
                known.push((key.to_owned(), id));
                proof {
                    assert(entries_view(known@) =~= before.push((key@, id)));
                    assert(entries_view(known@).drop_last() =~= before);
                }
            },
        }
        i = i + 1;
    }
    proof {
        assert(entries_view(existing@).take(existing@.len() as int) =~= entries_view(existing@));
    }
    let ghost start = key_map(entries_view(existing@));
    let ghost b = entries_view(batch@);
    let mut canonical: Vec<u128> = Vec::new();
    let mut inserted: Vec<usize> = Vec::new();
    let mut n: usize = 0;
    proof {
        assert(b.take(0) =~= Seq::<FindingEntry>::empty());
        assert(inserted@.map_values(|i: usize| i as int) =~= Seq::<int>::empty());
    }
    while n < batch.len()
        invariant
            n <= batch@.len(),
            b == entries_view(batch@),
            start == key_map(entries_view(existing@)),
            distinct_keys(entries_view(known@)),
            finding_plan(start, b.take(n as int), max as nat) == Ok::<
                (Map<Seq<char>, u128>, Seq<u128>, Seq<int>),
                PersistenceError,
            >((key_map(entries_view(known@)), canonical@, inserted@.map_values(|i: usize| i as int))),
        decreases batch.len() - n,
    {
        let ghost before = entries_view(known@);
        proof {
            assert(b.take(n + 1).drop_last() =~= b.take(n as int));
            lemma_key_map_lookup(before, b[n as int].0);
        }
        let key = batch[n].0.as_str();
        let id = batch[n].1;
        assert(b[n as int] == (key@, id));
        match find_entry(&known, key) {
            Some(j) => {
                proof {
                    assert(before[j as int].0 == key@);
                    assert(key_map(before).contains_key(key@));
                    assert(key_map(before)[key@] == before[j as int].1);
                    assert(before[j as int].1 == known@[j as int].1);
                }
                canonical.push(known[j].1);
            },
            None => {
                if known.len() >= max {
                    proof {
                        lemma_plan_error_stays(start, b, max as nat, n as int + 1);
                    }
                    return Err(PersistenceError::ResourceLimit("findings per changeset"));
                }
                proof {
                    assert(!key_map(before).contains_key(key@));
                    assert(key_map(before).dom().len() == known@.len());
                }
                known.push((key.to_owned(), id));
                canonical.push(id);
                let ghost before_inserted = inserted@;
                inserted.push(n);
                proof {
                    assert(entries_view(known@) =~= before.push((key@, id)));
                    assert(entries_view(known@).drop_last() =~= before);
                    assert(inserted@.map_values(|i: usize| i as int) =~= before_inserted.map_values(
                        |i: usize| i as int,
                    ).push(n as int));
                }
            },
        }
        n = n + 1;
    }
    proof {
        assert(b.take(batch@.len() as int) =~= b);
    }
    Ok(FindingPlan { canonical, inserted })
}

/// Once a prefix of the batch is refused, the whole batch is refused with
/// the same error.
pub proof fn lemma_plan_error_stays(known: Map<Seq<char>, u128>, batch: Seq<FindingEntry>, max: nat, n: int)
    requires
        0 <= n <= batch.len(),
        finding_plan(known, batch.take(n), max) is Err,
    ensures
        finding_plan(known, batch, max) == finding_plan(known, batch.take(n), max),
    decreases batch.len() - n,
{
    if n < batch.len() {
        assert(batch.take(n + 1).drop_last() =~= batch.take(n));
        lemma_plan_error_stays(known, batch, max, n + 1);
    } else {
        assert(batch.take(n) =~= batch);
    }
}

/// After a batch is saved, every finding of the batch is known, answered
/// by the finding known under its key, and every finding known before
/// stays known unchanged.
pub proof fn lemma_plan_answers_known(known: Map<Seq<char>, u128>, batch: Seq<FindingEntry>, max: nat)
    requires
        finding_plan(known, batch, max) is Ok,
    ensures
        finding_plan(known, batch, max)->Ok_0.1.len() == batch.len(),
        forall|i: int| 0 <= i < batch.len() ==> finding_plan(known, batch, max)->Ok_0.0.contains_key(#[trigger] batch[i].0)
            && finding_plan(known, batch, max)->Ok_0.1[i] == finding_plan(known, batch, max)->Ok_0.0[batch[i].0],
        forall|k: Seq<char>| #[trigger] known.contains_key(k) ==> finding_plan(known, batch, max)->Ok_0.0.contains_key(k)
            && finding_plan(known, batch, max)->Ok_0.0[k] == known[k],
    decreases batch.len(),
{
    if batch.len() > 0 {
        let p = batch.drop_last();
        lemma_plan_answers_known(known, p, max);
        let (m0, c0, _) = finding_plan(known, p, max)->Ok_0;
        let (m, c, _) = finding_plan(known, batch, max)->Ok_0;
        let k = batch.last().0;
        assert(batch.last() == batch[batch.len() - 1]);
        if m0.contains_key(k) {
            assert(m == m0);
            assert(c == c0.push(m0[k]));
        } else {
            assert(m == m0.insert(k, batch.last().1));
            assert(c == c0.push(batch.last().1));
        }
        assert forall|i: int| 0 <= i < batch.len() implies m.contains_key(#[trigger] batch[i].0) && c[i] == m[batch[i].0] by {
            if i < batch.len() - 1 {
                assert(p[i] == batch[i]);
                assert(m0.contains_key(p[i].0));
                assert(c0[i] == m0[p[i].0]);
                assert(c[i] == c0[i]);
            }
        }
        assert forall|kk: Seq<char>| known.contains_key(kk) implies m.contains_key(kk) && m[kk] == known[kk] by {
            assert(m0.contains_key(kk) && m0[kk] == known[kk]);
        }
    }
}

/// Re-planning a batch against the findings it left answers it the same
/// way and inserts nothing.
pub proof fn lemma_replan_inserts_nothing(m: Map<Seq<char>, u128>, batch: Seq<FindingEntry>, canonical: Seq<u128>, max: nat)
    requires
        canonical.len() == batch.len(),
        forall|i: int| 0 <= i < batch.len() ==> m.contains_key(#[trigger] batch[i].0) && canonical[i] == m[batch[i].0],
    ensures
        finding_plan(m, batch, max) == Ok::<(Map<Seq<char>, u128>, Seq<u128>, Seq<int>), PersistenceError>(
            (m, canonical, seq![]),
        ),
    decreases batch.len(),
{
    if batch.len() > 0 {
        let p = batch.drop_last();
        assert forall|i: int| 0 <= i < p.len() implies m.contains_key(#[trigger] p[i].0) && canonical.drop_last()[i] == m[p[i].0] by {
            assert(p[i] == batch[i]);
        }
        lemma_replan_inserts_nothing(m, p, canonical.drop_last(), max);
        assert(batch.last() == batch[batch.len() - 1]);
        assert(canonical.drop_last().push(m[batch.last().0]) =~= canonical);
    } else {
        assert(canonical =~= Seq::<u128>::empty());
    }
}

/// Saving the same batch of findings twice inserts nothing the second time
/// and answers every finding with the same stored finding.
pub proof fn lemma_saving_findings_twice_is_idempotent(known: Map<Seq<char>, u128>, batch: Seq<FindingEntry>, max: nat)
    requires
        finding_plan(known, batch, max) is Ok,
    ensures
        finding_plan(finding_plan(known, batch, max)->Ok_0.0, batch, max) == Ok::<
            (Map<Seq<char>, u128>, Seq<u128>, Seq<int>),
            PersistenceError,
        >((finding_plan(known, batch, max)->Ok_0.0, finding_plan(known, batch, max)->Ok_0.1, seq![])),
{
    lemma_plan_answers_known(known, batch, max);
    let (m, canonical, _) = finding_plan(known, batch, max)->Ok_0;
    lemma_replan_inserts_nothing(m, batch, canonical, max);
}

/// The outcome of saving a review's findings against the revision they were
/// made for: the findings must belong to the changeset, the changeset must
/// still be at the reviewed version, reviewable, and at the reviewed head.
pub open spec fn revision_findings_check(
    owners: Seq<u128>,
    changeset_id: u128,
    changeset_version: u64,
    stored_version: u64,
    stored_state: ChangesetState,
    stored_head: Seq<char>,
    head: Seq<char>,
) -> Result<(), PersistenceError> {
    if owners.len() > 0 && finding_owner_check(owners) is Err {
        Err(finding_owner_check(owners)->Err_0)
    } else if owners.len() > 0 && finding_owner_check(owners)->Ok_0 != changeset_id {
        Err(PersistenceError::MixedFindingOwners)
    } else if stored_version != changeset_version {
        Err(PersistenceError::VersionConflict {
            aggregate: "changeset",
            id: changeset_id,
            expected: changeset_version,
            actual: stored_version,
        })
    } else if stored_state != ChangesetState::Reviewable || stored_head != head {
        Err(PersistenceError::InvalidPersistedTransition("review finding persistence"))
    } else {
        Ok(())
    }
}

/// Checks that a review's findings may be saved for the reviewed revision
/// of the changeset, as stored.
pub fn check_revision_findings(
    owners: &[u128],
    changeset_id: u128,
    changeset_version: u64,
    stored_version: u64,
    stored_state: ChangesetState,
    stored_head: &str,
    head: &str,
) -> (r: Result<(), PersistenceError>)
    ensures
        r == revision_findings_check(owners@, changeset_id, changeset_version, stored_version, stored_state, stored_head@, head@),
{
    if owners.len() > 0 {
        match validate_finding_owners(owners) {
            Err(e) => return Err(e),
            Ok(owner) => {
                if owner != changeset_id {
                    return Err(PersistenceError::MixedFindingOwners);
                }
            },
        }
    }
    if stored_version != changeset_version {
        return Err(PersistenceError::VersionConflict {
            aggregate: "changeset",
            id: changeset_id,
            expected: changeset_version,
            actual: stored_version,
        });
    }
    if stored_state != ChangesetState::Reviewable || !str_equals(stored_head, head) {
        return Err(PersistenceError::InvalidPersistedTransition("review finding persistence"));
    }
    Ok(())
}

/// The supervision lifecycle, for a proposal that keeps the process
/// identity and is not older than the stored record: a prepared process
/// may start running, a prepared or running one may be marked terminated
/// with a reason; nothing returns to `Prepared`, a running record does not
/// start again, and a terminated record moves nowhere.
pub proof fn lemma_supervision_lifecycle(
    stored: ProcessSupervisionRecord,
    proposed: SupervisionMetadata,
    next: SupervisionState,
    updated_at_unix_ms: i64,
)
    requires
        proposed.state == next,
        same_identity(stored.metadata, proposed),
        stored.updated_at_unix_ms <= updated_at_unix_ms,
    ensures
        next == SupervisionState::Terminated && proposed.termination_reason is Some && (stored.metadata.state
            == SupervisionState::Prepared || stored.metadata.state == SupervisionState::Running)
            ==> supervision_transition_check(stored, proposed, next, updated_at_unix_ms) == Ok::<(), PersistenceError>(()),
        next == SupervisionState::Running && proposed.termination_reason is None && stored.metadata.state
            == SupervisionState::Prepared ==> supervision_transition_check(stored, proposed, next, updated_at_unix_ms)
            == Ok::<(), PersistenceError>(()),
        next == SupervisionState::Prepared ==> supervision_transition_check(stored, proposed, next, updated_at_unix_ms) is Err,
        stored.metadata.state == SupervisionState::Terminated ==> supervision_transition_check(stored, proposed, next,
            updated_at_unix_ms) is Err,
        next == SupervisionState::Running && stored.metadata.state == SupervisionState::Running
            ==> supervision_transition_check(stored, proposed, next, updated_at_unix_ms) is Err,
{
}

} // verus!
