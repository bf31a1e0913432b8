//! The store's rules for writing runs: which state changes a write may make,
//! when a run is waiting on an approval, and what a run's events and
//! proposed changes may hold.

use vstd::prelude::*;
use crate::digest::{parse_uuid, parse_uuid_text};
use crate::error::PersistenceError;
use crate::finalization::ChangesetState;
use crate::store::{
    ensure_version_agreement, state_transition_check, validate_state_transition, validate_versioned_transition,
    versioned_transition_check, RunState,
};
use crate::text::str_equals;

verus! {

/// A run write may change the stored state only by a step the domain model
/// allows, and never from awaiting approval straight to running: only an
/// authorized approval resumes a run.
pub open spec fn run_step_allowed(stored: RunState, proposed: RunState, domain_allows: bool) -> bool {
    !(stored == RunState::AwaitingApproval && proposed == RunState::Running) && domain_allows
}

/// The outcome of writing a run transition; `expected_source`, when given,
/// is the state the stored run must still be in (a drive claim).
pub open spec fn run_transition_check(
    run_id: u128,
    stored_state: RunState,
    stored_version: u64,
    proposed_state: RunState,
    proposed_version: u64,
    expected_source: Option<RunState>,
    domain_allows: bool,
) -> Result<(), PersistenceError> {
    if expected_source matches Some(e) && stored_state != e {
        Err(PersistenceError::RunDriveAlreadyClaimed)
    } else {
        versioned_transition_check(
            "run",
            run_id,
            stored_state,
            proposed_state,
            stored_version,
            proposed_version,
            run_step_allowed(stored_state, proposed_state, domain_allows),
        )
    }
}

/// Checks a run write against the stored run; `domain_allows` says whether
/// the domain model permits the stored state to move to the proposed one.
pub fn check_run_transition(
    run_id: u128,
    stored_state: RunState,
    stored_version: u64,
    proposed_state: RunState,
    proposed_version: u64,
    expected_source: Option<RunState>,
    domain_allows: bool,
) -> (r: Result<(), PersistenceError>)
    ensures
        r == run_transition_check(
            run_id,
            stored_state,
            stored_version,
            proposed_state,
            proposed_version,
            expected_source,
            domain_allows,
        ),
{
    if let Some(expected) = expected_source {
        if stored_state != expected {
            return Err(PersistenceError::RunDriveAlreadyClaimed);
        }
    }
    let allowed = !(stored_state == RunState::AwaitingApproval && proposed_state == RunState::Running)
        && domain_allows;
    validate_versioned_transition(
        "run",
        run_id,
        stored_state,
        proposed_state,
        stored_version,
        proposed_version,
        allowed,
    )
}

/// A plain run write never resumes a run that awaits approval.
pub proof fn lemma_transition_never_skips_approval(
    run_id: u128,
    stored_version: u64,
    proposed_version: u64,
    expected_source: Option<RunState>,
    domain_allows: bool,
)
    ensures
        run_transition_check(
            run_id,
            RunState::AwaitingApproval,
            stored_version,
            RunState::Running,
            proposed_version,
            expected_source,
            domain_allows,
        ) is Err,
{
}

/// A drive claim moves a run from starting to running, and only the first
/// claim succeeds: the stored run must still be starting.
pub fn check_drive_claim(
    run_id: u128,
    stored_state: RunState,
    stored_version: u64,
    proposed_state: RunState,
    proposed_version: u64,
    domain_allows: bool,
) -> (r: Result<(), PersistenceError>)
    ensures
        proposed_state != RunState::Running ==> r == Err::<(), PersistenceError>(
            PersistenceError::InvalidPersistedTransition("run drive claim"),
        ),
        proposed_state == RunState::Running ==> r == run_transition_check(
            run_id,
            stored_state,
            stored_version,
            proposed_state,
            proposed_version,
            Some(RunState::Starting),
            domain_allows,
        ),
{
    if proposed_state != RunState::Running {
        return Err(PersistenceError::InvalidPersistedTransition("run drive claim"));
    }
    check_run_transition(
        run_id,
        stored_state,
        stored_version,
        proposed_state,
        proposed_version,
        Some(RunState::Starting),
        domain_allows,
    )
}

/// A second claim of the same run fails: after the first claim the stored
/// run is running, no longer starting.
pub proof fn lemma_drive_claimed_once(
    run_id: u128,
    stored_version: u64,
    proposed_version: u64,
    domain_allows: bool,
)
    ensures
        run_transition_check(
            run_id,
            RunState::Running,
            stored_version,
            RunState::Running,
            proposed_version,
            Some(RunState::Starting),
            domain_allows,
        ) == Err::<(), PersistenceError>(PersistenceError::RunDriveAlreadyClaimed),
{
}

/// The fields of a run that an approval is checked against.
#[derive(Debug, Clone)]
pub struct RunApprovalView {
    pub run_id: u128,
    pub state: RunState,
    pub changeset_id: u128,
    pub proposal_digest: Option<String>,
}

/// The fields of an approval that are checked against its run.
#[derive(Debug, Clone)]
pub struct ApprovalView {
    pub run_id: u128,
    pub consumed: bool,
    pub scope_changeset_id: u128,
    pub digest: String,
    pub scope_digest: String,
}

/// An approval is the pending one of a run: the run awaits approval, the
/// approval is for it, unconsumed, scoped to its changeset, and approves
/// exactly the action the run proposed.
pub open spec fn approval_is_pending(run: RunApprovalView, approval: ApprovalView) -> bool {
    &&& run.state == RunState::AwaitingApproval
    &&& approval.run_id == run.run_id
    &&& !approval.consumed
    &&& approval.scope_changeset_id == run.changeset_id
    &&& approval.digest@ == approval.scope_digest@
    &&& run.proposal_digest matches Some(d) && d@ == approval.digest@
}

/// Refuses an approval that is not the pending approval of the run.
pub fn validate_pending_approval(run: &RunApprovalView, approval: &ApprovalView) -> (r: Result<(), PersistenceError>)
    ensures
        r == if approval_is_pending(*run, *approval) {
            Ok::<(), PersistenceError>(())
        } else {
            Err(PersistenceError::ApprovalDoesNotMatchRun)
        },
{
    let digest_matches = match &run.proposal_digest {
        Some(d) => str_equals(d.as_str(), approval.digest.as_str()),
        None => false,
    };
    if run.state != RunState::AwaitingApproval || approval.run_id != run.run_id || approval.consumed
        || approval.scope_changeset_id != run.changeset_id
        || !str_equals(approval.digest.as_str(), approval.scope_digest.as_str()) || !digest_matches
    {
        return Err(PersistenceError::ApprovalDoesNotMatchRun);
    }
    Ok(())
}

/// The outcome of recording an approval request: the run write must be a
/// permitted versioned step out of running, and the approval must be the
/// pending one of the proposed run.
pub open spec fn approval_request_check(
    stored_state: RunState,
    stored_version: u64,
    proposed: RunApprovalView,
    proposed_version: u64,
    domain_allows: bool,
    approval: ApprovalView,
) -> Result<(), PersistenceError> {
    if versioned_transition_check(
        "run",
        proposed.run_id,
        stored_state,
        proposed.state,
        stored_version,
        proposed_version,
        domain_allows,
    ) is Err {
        versioned_transition_check(
            "run",
            proposed.run_id,
            stored_state,
            proposed.state,
            stored_version,
            proposed_version,
            domain_allows,
        )
    } else if stored_state != RunState::Running || !approval_is_pending(proposed, approval) {
        Err(PersistenceError::ApprovalDoesNotMatchRun)
    } else {
        Ok(())
    }
}

/// Checks that a run may move to awaiting the given approval.
pub fn check_approval_request(
    stored_state: RunState,
    stored_version: u64,
    proposed: &RunApprovalView,
    proposed_version: u64,
    domain_allows: bool,
    approval: &ApprovalView,
) -> (r: Result<(), PersistenceError>)
    ensures
        r == approval_request_check(stored_state, stored_version, *proposed, proposed_version, domain_allows, *approval),
{
    let step = validate_versioned_transition(
        "run",
        proposed.run_id,
        stored_state,
        proposed.state,
        stored_version,
        proposed_version,
        domain_allows,
    );
    if step.is_err() {
        return step;
    }
    if stored_state != RunState::Running {
        return Err(PersistenceError::ApprovalDoesNotMatchRun);
    }
    validate_pending_approval(proposed, approval)
}

/// The outcome of checking a run that a decided approval moves on from
/// awaiting approval (rejected: interrupted; authorized: resumed).
pub open spec fn approval_decision_check(
    run_id: u128,
    stored_version: u64,
    decided_state: RunState,
    decided_version: u64,
    domain_allows: bool,
) -> Result<(), PersistenceError> {
    versioned_transition_check(
        "run",
        run_id,
        RunState::AwaitingApproval,
        decided_state,
        stored_version,
        decided_version,
        domain_allows,
    )
}

/// Checks the run that an approval decision produced against the stored
/// run that was awaiting it.
pub fn check_approval_decision(
    run_id: u128,
    stored_version: u64,
    decided_state: RunState,
    decided_version: u64,
    domain_allows: bool,
) -> (r: Result<(), PersistenceError>)
    ensures
        r == approval_decision_check(run_id, stored_version, decided_state, decided_version, domain_allows),
{
    validate_versioned_transition(
        "run",
        run_id,
        RunState::AwaitingApproval,
        decided_state,
        stored_version,
        decided_version,
        domain_allows,
    )
}

/// An authorization must present the changeset of the run it resumes.
pub fn check_presented_changeset(run_changeset_id: u128, presented_changeset_id: u128) -> (r: Result<(), PersistenceError>)
    ensures
        r is Ok <==> run_changeset_id == presented_changeset_id,
        r is Err ==> r == Err::<(), PersistenceError>(PersistenceError::ApprovalDoesNotMatchRun),
{
    if run_changeset_id != presented_changeset_id {
        return Err(PersistenceError::ApprovalDoesNotMatchRun);
    }
    Ok(())
}

/// A semantic event may carry at most `max_text_bytes` of text;
/// `text_bytes` is the length of its text, if it is a text event.
pub fn validate_semantic_event(text_bytes: Option<usize>, max_text_bytes: usize) -> (r: Result<(), PersistenceError>)
    ensures
        r is Err <==> (text_bytes matches Some(n) && n > max_text_bytes),
        r is Err ==> r == Err::<(), PersistenceError>(PersistenceError::ResourceLimit("semantic event text")),
{
    if let Some(n) = text_bytes {
        if n > max_text_bytes {
            return Err(PersistenceError::ResourceLimit("semantic event text"));
        }
    }
    Ok(())
}

/// The outcome of saving a proposed change for a run: its content must fit,
/// the run must be stored exactly as presented, at the same version, and be
/// running.
pub open spec fn proposed_change_check(
    run_id: u128,
    content_len: nat,
    max_file_bytes: nat,
    stored_version: u64,
    run_version: u64,
    stored_matches_run: bool,
    run_state: RunState,
) -> Result<(), PersistenceError> {
    if content_len > max_file_bytes {
        Err(PersistenceError::ResourceLimit("approved file content"))
    } else if stored_version != run_version {
        Err(PersistenceError::VersionConflict { aggregate: "run", id: run_id, expected: run_version, actual: stored_version })
    } else if !stored_matches_run || run_state != RunState::Running {
        Err(PersistenceError::InvalidPersistedTransition("proposed change"))
    } else {
        Ok(())
    }
}

/// Checks that a proposed change may be saved for a run.
pub fn check_proposed_change(
    run_id: u128,
    content_len: usize,
    max_file_bytes: usize,
    stored_version: u64,
    run_version: u64,
    stored_matches_run: bool,
    run_state: RunState,
) -> (r: Result<(), PersistenceError>)
    ensures
        r == proposed_change_check(
            run_id,
            content_len as nat,
            max_file_bytes as nat,
            stored_version,
            run_version,
            stored_matches_run,
            run_state,
        ),
{
    if content_len > max_file_bytes {
        return Err(PersistenceError::ResourceLimit("approved file content"));
    }
    if stored_version != run_version {
        return Err(PersistenceError::VersionConflict {
            aggregate: "run",
            id: run_id,
            expected: run_version,
            actual: stored_version,
        });
    }
    if !stored_matches_run || run_state != RunState::Running {
        return Err(PersistenceError::InvalidPersistedTransition("proposed change"));
    }
    Ok(())
}

/// The outcome of reading a run of a changeset's history: its identifier
/// column must read as the identifier inside the stored run, its version
/// column must agree with the run's version, and both the changeset column
/// and the run must belong to the changeset.
pub open spec fn history_row_check(
    scalar_run_id: Seq<char>,
    run_id: u128,
    scalar_version: u64,
    run_version: u64,
    scalar_changeset_id: Seq<char>,
    run_changeset_id: u128,
    changeset_id: u128,
    changeset_text: Seq<char>,
) -> Result<(), PersistenceError> {
    match parse_uuid_text(scalar_run_id) {
        None => Err(PersistenceError::CorruptIdentifier("run id")),
        Some(id) => if id != run_id {
            Err(PersistenceError::CorruptOwnership("run"))
        } else if scalar_version != run_version {
            Err(PersistenceError::CorruptVersion { aggregate: "run", id, scalar: scalar_version, serialized: run_version })
        } else if scalar_changeset_id != changeset_text || run_changeset_id != changeset_id {
            Err(PersistenceError::CorruptOwnership("run"))
        } else {
            Ok(())
        },
    }
}

/// The newest `limit` of a changeset's runs, newest first, given its runs
/// in the order they were saved.
pub open spec fn newest_first(saved: Seq<u128>, limit: nat) -> Seq<u128> {
    let n = if saved.len() < limit { saved.len() } else { limit };
    Seq::new(n, |i: int| saved[saved.len() - 1 - i])
}

/// A page of a changeset's run history: refuses a page size outside
/// `1..=max`, and otherwise gives the newest `limit` runs, newest first,
/// of the runs listed in the order they were saved.
pub fn run_history_page(saved: &[u128], limit: usize, max: usize) -> (r: Result<Vec<u128>, PersistenceError>)
    ensures
        limit == 0 || limit > max ==> r == Err::<Vec<u128>, PersistenceError>(
            PersistenceError::ResourceLimit("run history page size")),
        !(limit == 0 || limit > max) ==> (r matches Ok(page) && page@ == newest_first(saved@, limit as nat)),
{
    if limit == 0 || limit > max {
        return Err(PersistenceError::ResourceLimit("run history page size"));
    }
    let mut page: Vec<u128> = Vec::new();
    let mut i: usize = saved.len();
    while i > 0 && page.len() < limit
        invariant
            i <= saved@.len(),
            page@.len() == saved@.len() - i,
            page@.len() <= limit,
            forall|k: int| 0 <= k < page@.len() ==> page@[k] == saved@[saved@.len() - 1 - k],
        decreases i,
    {
        page.push(saved[i - 1]);
        i = i - 1;
    }
    assert(page@ =~= newest_first(saved@, limit as nat));
    Ok(page)
}

/// Checks one row of a changeset's run history; `changeset_text` is the
/// changeset's identifier as stored.
pub fn check_history_row(
    scalar_run_id: &str,
    run_id: u128,
    scalar_version: u64,
    run_version: u64,
    scalar_changeset_id: &str,
    run_changeset_id: u128,
    changeset_id: u128,
    changeset_text: &str,
) -> (r: Result<(), PersistenceError>)
    ensures
        r == history_row_check(
            scalar_run_id@,
            run_id,
            scalar_version,
            run_version,
            scalar_changeset_id@,
            run_changeset_id,
            changeset_id,
            changeset_text@,
        ),
{
    match parse_uuid(scalar_run_id) {
        None => Err(PersistenceError::CorruptIdentifier("run id")),
        Some(id) => {
            if id != run_id {
                return Err(PersistenceError::CorruptOwnership("run"));
            }
            let agreement = ensure_version_agreement("run", id, scalar_version, run_version);
            if agreement.is_err() {
                return agreement;
            }
            if !str_equals(scalar_changeset_id, changeset_text) || run_changeset_id != changeset_id {
                return Err(PersistenceError::CorruptOwnership("run"));
            }
            Ok(())
        },
    }
}

/// What completing a run with a checkpoint writes: the changeset becomes
/// reviewable and the run passes through reviewable to completed.
#[derive(Debug, Clone, Copy, PartialEq, Eq)]
pub struct CompletionRequest {
    pub changeset_id: u128,
    pub stored_changeset_state: ChangesetState,
    pub stored_changeset_version: u64,
    pub changeset_state: ChangesetState,
    pub changeset_version: u64,
    /// The domain model permits the stored changeset state to move to the
    /// proposed one.
    pub changeset_step_allowed: bool,
    pub run_id: u128,
    pub stored_run_state: RunState,
    pub stored_run_version: u64,
    pub run_state: RunState,
    pub run_version: u64,
    /// The stored run, marked reviewable and then completed by the domain
    /// model, equals the proposed run.
    pub completed_matches: bool,
    pub run_changeset_id: u128,
    pub checkpoint_run_id: u128,
}

/// `x - 2`, or 0 when `x` is below 2.
pub open spec fn minus_two_sat(x: u64) -> u64 {
    if x < 2 { 0 } else { (x - 2) as u64 }
}

/// The outcome of completing a run with a checkpoint.
pub open spec fn completion_check(c: CompletionRequest) -> Result<(), PersistenceError> {
    if state_transition_check("changeset", c.changeset_id, c.stored_changeset_version, c.changeset_version, c.changeset_step_allowed) is Err {
        state_transition_check("changeset", c.changeset_id, c.stored_changeset_version, c.changeset_version, c.changeset_step_allowed)
    } else if c.stored_run_version != minus_two_sat(c.run_version) {
        Err(PersistenceError::VersionConflict {
            aggregate: "run",
            id: c.run_id,
            expected: minus_two_sat(c.run_version),
            actual: c.stored_run_version,
        })
    } else if c.stored_changeset_state != ChangesetState::Active || c.changeset_state != ChangesetState::Reviewable
        || c.stored_run_state != RunState::Running || c.run_state != RunState::Completed || !c.completed_matches
        || c.checkpoint_run_id != c.run_id || c.run_changeset_id != c.changeset_id {
        Err(PersistenceError::InvalidPersistedTransition("run completion"))
    } else {
        Ok(())
    }
}

/// Checks that a running run of an active changeset may complete with its
/// checkpoint, making the changeset reviewable.
pub fn check_completion(c: &CompletionRequest) -> (r: Result<(), PersistenceError>)
    ensures
        r == completion_check(*c),
        r is Ok ==> c.changeset_version == c.stored_changeset_version + 1,
{
    let step = validate_state_transition(
        "changeset",
        c.changeset_id,
        c.stored_changeset_version,
        c.changeset_version,
        c.changeset_step_allowed,
    );
    if step.is_err() {
        return step;
    }
    let expected = c.run_version.saturating_sub(2);
    if c.stored_run_version != expected {
        return Err(PersistenceError::VersionConflict {
            aggregate: "run",
            id: c.run_id,
            expected,
            actual: c.stored_run_version,
        });
    }
    if c.stored_changeset_state != ChangesetState::Active || c.changeset_state != ChangesetState::Reviewable
        || c.stored_run_state != RunState::Running || c.run_state != RunState::Completed || !c.completed_matches
        || c.checkpoint_run_id != c.run_id || c.run_changeset_id != c.changeset_id
    {
        return Err(PersistenceError::InvalidPersistedTransition("run completion"));
    }
    Ok(())
}

/// The lifecycle events a completion appends after the run's last event:
/// reviewable, then completed.
pub fn completion_events(first_sequence: u64) -> (r: [(u64, RunState); 2])
    requires
        first_sequence < u64::MAX,
    ensures
        r@ == seq![(first_sequence, RunState::Reviewable), ((first_sequence + 1) as u64, RunState::Completed)],
{
    let r = [(first_sequence, RunState::Reviewable), (first_sequence + 1, RunState::Completed)];
    assert(r@ =~= seq![(first_sequence, RunState::Reviewable), ((first_sequence + 1) as u64, RunState::Completed)]);
    r
}

/// A run write that the domain model permits, that advances the version by
/// exactly one and that is not an approval being skipped is accepted, when
/// no drive claim is made or the run is still where the claim expects it.
pub proof fn lemma_permitted_run_steps_are_accepted(
    run_id: u128,
    stored_state: RunState,
    stored_version: u64,
    proposed_state: RunState,
    expected_source: Option<RunState>,
)
    requires
        stored_state != proposed_state,
        stored_version < u64::MAX,
        !(stored_state == RunState::AwaitingApproval && proposed_state == RunState::Running),
        expected_source matches Some(e) ==> e == stored_state,
    ensures
        run_transition_check(run_id, stored_state, stored_version, proposed_state, (stored_version + 1) as u64,
            expected_source, true) == Ok::<(), PersistenceError>(()),
        run_transition_check(run_id, stored_state, stored_version, proposed_state, (stored_version + 1) as u64,
            expected_source, false) is Err,
{
}

} // verus!
