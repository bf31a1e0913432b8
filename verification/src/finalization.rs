//! Durable records of changeset finalization (commit or discard).
//!
//! A finalization is first prepared against an exact changeset revision and
//! worktree version, then completed with its result or marked divergent.
//! Replaying a completed or divergent finalization is accepted only when the
//! stored aggregates are exactly where the first completion left them.

use vstd::prelude::*;
use crate::digest::{parse_uuid, parse_uuid_text, uuid_text, uuid_to_string};
use crate::error::PersistenceError;
use crate::store::WorktreeState;
use crate::text::{is_hex, is_hex_of_len};
use vstd::string::StringSliceAdditionalSpecFns;
use vstd::utf8::encode_utf8;

verus! {

/// Whether a finalization commits or discards the changeset.
#[derive(Debug, Clone, Copy, PartialEq, Eq, Structural)]
pub enum ChangesetMutationKind {
    Commit,
    Discard,
}

/// Lifecycle states of a changeset that finalization reads or writes.
#[derive(Debug, Clone, Copy, PartialEq, Eq, Structural)]
pub enum ChangesetState {
    Active,
    Reviewable,
    Committed,
    Discarded,
    Divergent,
}

/// The exact revision a finalization applies to.
#[derive(Debug, PartialEq, Eq)]
pub struct ChangesetMutationScope {
    pub changeset_id: u128,
    pub repository_id: u128,
    pub checkpoint_id: u128,
    pub kind: ChangesetMutationKind,
    pub expected_version: u64,
    pub base_sha: String,
    pub expected_head_sha: String,
    pub manifest_sha256: String,
}

impl Clone for ChangesetMutationScope {
    fn clone(&self) -> (r: Self)
        ensures
            r == *self,
    {
        ChangesetMutationScope {
            changeset_id: self.changeset_id,
            repository_id: self.repository_id,
            checkpoint_id: self.checkpoint_id,
            kind: self.kind,
            expected_version: self.expected_version,
            base_sha: self.base_sha.clone(),
            expected_head_sha: self.expected_head_sha.clone(),
            manifest_sha256: self.manifest_sha256.clone(),
        }
    }
}

/// Progress of a finalization.
#[derive(Debug, Clone, Copy, PartialEq, Eq, Structural)]
pub enum ChangesetFinalizationState {
    Prepared,
    Completed,
    Divergent,
}

/// What a completed finalization did.
#[derive(Debug, Clone, PartialEq, Eq)]
pub enum ChangesetFinalizationResult {
    Commit { resulting_head_sha: String, app_ref: String },
    Discard,
}

/// A durable finalization record.
#[derive(Debug, Clone, PartialEq, Eq)]
pub struct ChangesetFinalization {
    pub confirmation_digest: String,
    pub scope: ChangesetMutationScope,
    pub worktree_id: u128,
    pub expected_worktree_version: u64,
    pub state: ChangesetFinalizationState,
    pub result: Option<ChangesetFinalizationResult>,
    pub divergence_detail: Option<String>,
    pub version: u64,
    pub created_at_unix_ms: i64,
    pub updated_at_unix_ms: i64,
}

/// What finalization reads of a changeset.
#[derive(Debug, Clone, PartialEq, Eq)]
pub struct ChangesetView {
    pub id: u128,
    pub repository_id: u128,
    pub state: ChangesetState,
    pub base_sha: String,
    pub head_sha: String,
}

/// What finalization reads of a worktree.
#[derive(Debug, Clone, PartialEq, Eq)]
pub struct WorktreeView {
    pub id: u128,
    pub changeset_id: u128,
    pub state: WorktreeState,
    pub base_sha: String,
}

/// What finalization reads of the checkpoint named by the scope.
#[derive(Debug, Clone, PartialEq, Eq)]
pub struct CheckpointView {
    pub base_sha: String,
    pub head_sha: String,
}

/// `s` has `n` hexadecimal digits of either case.
pub open spec fn is_hex_text(s: Seq<char>, n: nat) -> bool {
    s.len() == n && forall|i: int| 0 <= i < s.len() ==> is_hex(#[trigger] s[i])
}

/// A SHA-256 digest in hexadecimal.
pub open spec fn is_sha256_digest_text(s: Seq<char>) -> bool {
    is_hex_text(s, 64)
}

/// A Git object id (SHA-1 or SHA-256) in hexadecimal.
pub open spec fn is_git_object_id_text(s: Seq<char>) -> bool {
    is_hex_text(s, 40) || is_hex_text(s, 64)
}

/// Whether `value` is 64 hexadecimal digits.
pub fn is_sha256_digest(value: &str) -> (r: bool)
    ensures
        r == is_sha256_digest_text(value@),
{
    is_hex_of_len(value, 64)
}

/// Whether `value` is a 40- or 64-digit hexadecimal Git object id.
pub fn is_git_object_id(value: &str) -> (r: bool)
    ensures
        r == is_git_object_id_text(value@),
{
    is_hex_of_len(value, 40) || is_hex_of_len(value, 64)
}

/// The application ref a committed changeset is published under.
pub open spec fn changeset_ref_text(changeset_id: u128) -> Seq<char> {
    "refs/jet-black/changesets/"@ + uuid_text(changeset_id)
}

/// The application ref a committed changeset is published under.
pub fn expected_changeset_ref(changeset_id: u128) -> (s: String)
    ensures
        s@ == changeset_ref_text(changeset_id),
{
    let mut s = String::from_str("refs/jet-black/changesets/");
    let id = uuid_to_string(changeset_id);
    s.append(id.as_str());
    s
}

/// The scope names valid Git revisions and a valid manifest digest.
pub open spec fn scope_valid(scope: ChangesetMutationScope) -> bool {
    &&& is_git_object_id_text(scope.base_sha@)
    &&& is_git_object_id_text(scope.expected_head_sha@)
    &&& is_sha256_digest_text(scope.manifest_sha256@)
}

/// Refuses a scope whose revisions or manifest digest are malformed.
pub fn validate_finalization_scope(scope: &ChangesetMutationScope) -> (r: Result<(), PersistenceError>)
    ensures
        r == (if scope_valid(*scope) {
            Ok(())
        } else {
            Err(PersistenceError::InvalidFinalizationInput("mutation scope"))
        }),
{
    if !is_git_object_id(scope.base_sha.as_str()) || !is_git_object_id(scope.expected_head_sha.as_str())
        || !is_sha256_digest(scope.manifest_sha256.as_str()) {
        return Err(PersistenceError::InvalidFinalizationInput("mutation scope"));
    }
    Ok(())
}

/// The outcome of checking a result against the scope it completes.
pub open spec fn result_check(scope: ChangesetMutationScope, result: ChangesetFinalizationResult) -> Result<
    (),
    PersistenceError,
> {
    match (scope.kind, result) {
        (ChangesetMutationKind::Commit, ChangesetFinalizationResult::Commit { resulting_head_sha, app_ref }) => {
            if is_git_object_id_text(resulting_head_sha@) && app_ref@ == changeset_ref_text(scope.changeset_id) {
                Ok(())
            } else {
                Err(PersistenceError::InvalidFinalizationInput("commit result"))
            }
        },
        (ChangesetMutationKind::Discard, ChangesetFinalizationResult::Discard) => Ok(()),
        _ => Err(PersistenceError::FinalizationKindMismatch),
    }
}

/// Checks that a result matches the kind of the scope, and that a commit
/// names a valid head and the changeset's application ref.
pub fn validate_finalization_result(scope: &ChangesetMutationScope, result: &ChangesetFinalizationResult) -> (r:
    Result<(), PersistenceError>)
    ensures
        r == result_check(*scope, *result),
{
    match (scope.kind, result) {
        (ChangesetMutationKind::Commit, ChangesetFinalizationResult::Commit { resulting_head_sha, app_ref }) => {
            let expected = expected_changeset_ref(scope.changeset_id);
            if is_git_object_id(resulting_head_sha.as_str()) && *app_ref == expected {
                Ok(())
            } else {
                Err(PersistenceError::InvalidFinalizationInput("commit result"))
            }
        },
        (ChangesetMutationKind::Discard, ChangesetFinalizationResult::Discard) => Ok(()),
        _ => Err(PersistenceError::FinalizationKindMismatch),
    }
}

/// Number of bytes in the UTF-8 encoding of a text.
pub open spec fn utf8_len(text: Seq<char>) -> nat {
    encode_utf8(text).len()
}

/// The state-specific shape of a finalization record.
pub open spec fn state_shape_valid(f: ChangesetFinalization, max_detail_bytes: nat) -> bool {
    match f.state {
        ChangesetFinalizationState::Prepared => {
            &&& f.version == 0
            &&& f.result is None
            &&& f.divergence_detail is None
            &&& f.updated_at_unix_ms == f.created_at_unix_ms
        },
        ChangesetFinalizationState::Completed => {
            &&& f.version == 1
            &&& f.divergence_detail is None
            &&& f.result is Some
            &&& result_check(f.scope, f.result.unwrap()) is Ok
        },
        ChangesetFinalizationState::Divergent => {
            &&& f.version == 1
            &&& f.result is None
            &&& f.divergence_detail is Some
            &&& utf8_len(f.divergence_detail.unwrap()@) > 0
            &&& utf8_len(f.divergence_detail.unwrap()@) <= max_detail_bytes
        },
    }
}

/// A finalization record is well formed: its digest is that of its scope,
/// its scope is valid, its timestamps are ordered, and its state-specific
/// fields agree with its state.
pub open spec fn record_valid(f: ChangesetFinalization, scope_digest: Seq<char>, max_detail_bytes: nat) -> bool {
    &&& f.updated_at_unix_ms >= f.created_at_unix_ms
    &&& f.confirmation_digest@ == scope_digest
    &&& scope_valid(f.scope)
    &&& state_shape_valid(f, max_detail_bytes)
}

/// The scalar columns of a stored finalization row, beside its body. The
/// kind and status columns are given as decoded by the caller.
pub struct ChangesetFinalizationRow {
    pub confirmation_digest: String,
    pub changeset_id: String,
    pub repository_id: String,
    pub checkpoint_id: String,
    pub worktree_id: String,
    pub kind: Result<ChangesetMutationKind, String>,
    pub status: Result<ChangesetFinalizationState, String>,
    pub version: u64,
    pub created_at_unix_ms: i64,
    pub updated_at_unix_ms: i64,
}

/// The scalar columns agree with the body.
pub open spec fn row_agrees(
    row: ChangesetFinalizationRow,
    f: ChangesetFinalization,
    changeset_id: u128,
    repository_id: u128,
    checkpoint_id: u128,
    worktree_id: u128,
    kind: ChangesetMutationKind,
    status: ChangesetFinalizationState,
) -> bool {
    &&& f.confirmation_digest@ == row.confirmation_digest@
    &&& f.scope.changeset_id == changeset_id
    &&& f.scope.repository_id == repository_id
    &&& f.scope.checkpoint_id == checkpoint_id
    &&& f.worktree_id == worktree_id
    &&& f.scope.kind == kind
    &&& f.state == status
    &&& f.version == row.version
    &&& f.created_at_unix_ms == row.created_at_unix_ms
    &&& f.updated_at_unix_ms == row.updated_at_unix_ms
}

/// Checks a stored finalization: its identifiers parse, its scalar columns
/// agree with its body, and the body is a well-formed record for the digest
/// of its scope (`scope_digest`). Details longer than `max_detail_bytes`
/// are refused.
pub fn validate_changeset_finalization(
    row: &ChangesetFinalizationRow,
    body: ChangesetFinalization,
    scope_digest: &str,
    max_detail_bytes: usize,
) -> (r: Result<ChangesetFinalization, PersistenceError>)
    ensures
        parse_uuid_text(row.changeset_id@) is None ==> r == Err::<ChangesetFinalization, PersistenceError>(
            PersistenceError::CorruptIdentifier("finalization changeset id")),
        parse_uuid_text(row.changeset_id@) is Some && parse_uuid_text(row.repository_id@) is None ==> r == Err::<
            ChangesetFinalization, PersistenceError>(PersistenceError::CorruptIdentifier("finalization repository id")),
        parse_uuid_text(row.changeset_id@) is Some && parse_uuid_text(row.repository_id@) is Some
            && parse_uuid_text(row.checkpoint_id@) is None ==> r == Err::<ChangesetFinalization, PersistenceError>(
            PersistenceError::CorruptIdentifier("finalization checkpoint id")),
        parse_uuid_text(row.changeset_id@) is Some && parse_uuid_text(row.repository_id@) is Some
            && parse_uuid_text(row.checkpoint_id@) is Some && parse_uuid_text(row.worktree_id@) is None ==> r == Err::<
            ChangesetFinalization, PersistenceError>(PersistenceError::CorruptIdentifier("finalization worktree id")),
        ({
            let ids_ok = parse_uuid_text(row.changeset_id@) is Some && parse_uuid_text(row.repository_id@) is Some
                && parse_uuid_text(row.checkpoint_id@) is Some && parse_uuid_text(row.worktree_id@) is Some;
            &&& ids_ok && row.kind is Err ==> (r matches Err(PersistenceError::Json(m)) && row.kind matches Err(o) && m@ == o@)
            &&& ids_ok && row.kind is Ok && row.status is Err ==> (r matches Err(PersistenceError::Json(m))
                && row.status matches Err(o) && m@ == o@)
            &&& ids_ok && row.kind is Ok && row.status is Ok ==> ({
                let agrees = row_agrees(*row, body, parse_uuid_text(row.changeset_id@).unwrap(),
                    parse_uuid_text(row.repository_id@).unwrap(), parse_uuid_text(row.checkpoint_id@).unwrap(),
                    parse_uuid_text(row.worktree_id@).unwrap(), row.kind.unwrap(), row.status.unwrap());
                if agrees && record_valid(body, scope_digest@, max_detail_bytes as nat) {
                    r == Ok::<ChangesetFinalization, PersistenceError>(body)
                } else {
                    r == Err::<ChangesetFinalization, PersistenceError>(PersistenceError::CorruptFinalization)
                }
            })
        }),
{
    let changeset_id = match parse_uuid(row.changeset_id.as_str()) {
        Some(id) => id,
        None => return Err(PersistenceError::CorruptIdentifier("finalization changeset id")),
    };
    let repository_id = match parse_uuid(row.repository_id.as_str()) {
        Some(id) => id,
        None => return Err(PersistenceError::CorruptIdentifier("finalization repository id")),
    };
    let checkpoint_id = match parse_uuid(row.checkpoint_id.as_str()) {
        Some(id) => id,
        None => return Err(PersistenceError::CorruptIdentifier("finalization checkpoint id")),
    };
    let worktree_id = match parse_uuid(row.worktree_id.as_str()) {
        Some(id) => id,
        None => return Err(PersistenceError::CorruptIdentifier("finalization worktree id")),
    };
    let kind = match &row.kind {
        Ok(kind) => *kind,
        Err(message) => return Err(PersistenceError::Json(message.clone())),
    };
    let status = match &row.status {
        Ok(status) => *status,
        Err(message) => return Err(PersistenceError::Json(message.clone())),
    };
    let digest_matches = body.confirmation_digest.as_str().to_owned() == scope_digest.to_owned();
    if body.confirmation_digest != row.confirmation_digest || body.scope.changeset_id != changeset_id
        || body.scope.repository_id != repository_id || body.scope.checkpoint_id != checkpoint_id
        || body.worktree_id != worktree_id || body.scope.kind != kind || body.state != status
        || body.version != row.version || body.created_at_unix_ms != row.created_at_unix_ms
        || body.updated_at_unix_ms != row.updated_at_unix_ms
        || body.updated_at_unix_ms < body.created_at_unix_ms || !digest_matches
        || validate_finalization_scope(&body.scope).is_err() {
        return Err(PersistenceError::CorruptFinalization);
    }
    let valid_state = match body.state {
        ChangesetFinalizationState::Prepared => {
            body.version == 0 && body.result.is_none() && body.divergence_detail.is_none()
                && body.updated_at_unix_ms == body.created_at_unix_ms
        },
        ChangesetFinalizationState::Completed => {
            body.version == 1 && body.divergence_detail.is_none() && match &body.result {
                Some(result) => validate_finalization_result(&body.scope, result).is_ok(),
                None => false,
            }
        },
        ChangesetFinalizationState::Divergent => {
            body.version == 1 && body.result.is_none() && match &body.divergence_detail {
                Some(detail) => detail_fits(detail.as_str(), max_detail_bytes),
                None => false,
            }
        },
    };
    if !valid_state {
        return Err(PersistenceError::CorruptFinalization);
    }
    Ok(body)
}

/// Whether `text` is non-empty and at most `max` bytes long.
fn detail_fits(text: &str, max: usize) -> (r: bool)
    ensures
        r == (utf8_len(text@) > 0 && utf8_len(text@) <= max),
{
    let bytes = text.as_bytes().len();
    bytes > 0 && bytes <= max
}

/// The record written when a finalization is prepared.
pub open spec fn prepared_record(
    confirmation_digest: Seq<char>,
    scope: ChangesetMutationScope,
    worktree_id: u128,
    expected_worktree_version: u64,
    now_unix_ms: i64,
    f: ChangesetFinalization,
) -> bool {
    &&& f.confirmation_digest@ == confirmation_digest
    &&& f.scope == scope
    &&& f.worktree_id == worktree_id
    &&& f.expected_worktree_version == expected_worktree_version
    &&& f.state == ChangesetFinalizationState::Prepared
    &&& f.result is None
    &&& f.divergence_detail is None
    &&& f.version == 0
    &&& f.created_at_unix_ms == now_unix_ms
    &&& f.updated_at_unix_ms == now_unix_ms
}

/// Builds the record of a newly prepared finalization.
pub fn prepared_finalization(
    confirmation_digest: &str,
    scope: &ChangesetMutationScope,
    worktree_id: u128,
    expected_worktree_version: u64,
    now_unix_ms: i64,
) -> (f: ChangesetFinalization)
    ensures
        prepared_record(confirmation_digest@, *scope, worktree_id, expected_worktree_version, now_unix_ms, f),
{
    ChangesetFinalization {
        confirmation_digest: confirmation_digest.to_owned(),
        scope: scope.clone(),
        worktree_id,
        expected_worktree_version,
        state: ChangesetFinalizationState::Prepared,
        result: None,
        divergence_detail: None,
        version: 0,
        created_at_unix_ms: now_unix_ms,
        updated_at_unix_ms: now_unix_ms,
    }
}


/// Two results say the same thing.
pub open spec fn same_result(a: ChangesetFinalizationResult, b: ChangesetFinalizationResult) -> bool {
    match (a, b) {
        (
            ChangesetFinalizationResult::Commit { resulting_head_sha: h1, app_ref: r1 },
            ChangesetFinalizationResult::Commit { resulting_head_sha: h2, app_ref: r2 },
        ) => h1@ == h2@ && r1@ == r2@,
        (ChangesetFinalizationResult::Discard, ChangesetFinalizationResult::Discard) => true,
        _ => false,
    }
}

fn results_equal(a: &ChangesetFinalizationResult, b: &ChangesetFinalizationResult) -> (r: bool)
    ensures
        r == same_result(*a, *b),
{
    match (a, b) {
        (
            ChangesetFinalizationResult::Commit { resulting_head_sha: h1, app_ref: r1 },
            ChangesetFinalizationResult::Commit { resulting_head_sha: h2, app_ref: r2 },
        ) => *h1 == *h2 && *r1 == *r2,
        (ChangesetFinalizationResult::Discard, ChangesetFinalizationResult::Discard) => true,
        _ => false,
    }
}

/// The stored record was prepared for exactly this request.
pub open spec fn matches_request(
    stored: ChangesetFinalization,
    confirmation_digest: Seq<char>,
    scope: ChangesetMutationScope,
    worktree_id: u128,
    expected_worktree_version: u64,
) -> bool {
    &&& stored.confirmation_digest@ == confirmation_digest
    &&& scope_equal(stored.scope, scope)
    &&& stored.worktree_id == worktree_id
    &&& stored.expected_worktree_version == expected_worktree_version
}

/// Two scopes name the same revision.
pub open spec fn scope_equal(a: ChangesetMutationScope, b: ChangesetMutationScope) -> bool {
    &&& a.changeset_id == b.changeset_id
    &&& a.repository_id == b.repository_id
    &&& a.checkpoint_id == b.checkpoint_id
    &&& a.kind == b.kind
    &&& a.expected_version == b.expected_version
    &&& a.base_sha@ == b.base_sha@
    &&& a.expected_head_sha@ == b.expected_head_sha@
    &&& a.manifest_sha256@ == b.manifest_sha256@
}

/// Whether a stored record was prepared for exactly this request.
pub fn finalization_matches_request(
    stored: &ChangesetFinalization,
    confirmation_digest: &str,
    scope: &ChangesetMutationScope,
    worktree_id: u128,
    expected_worktree_version: u64,
) -> (r: bool)
    ensures
        r == matches_request(*stored, confirmation_digest@, *scope, worktree_id, expected_worktree_version),
{
    stored.confirmation_digest.as_str().to_owned() == confirmation_digest.to_owned()
        && stored.scope.changeset_id == scope.changeset_id
        && stored.scope.repository_id == scope.repository_id
        && stored.scope.checkpoint_id == scope.checkpoint_id
        && stored.scope.kind == scope.kind
        && stored.scope.expected_version == scope.expected_version
        && stored.scope.base_sha == scope.base_sha
        && stored.scope.expected_head_sha == scope.expected_head_sha
        && stored.scope.manifest_sha256 == scope.manifest_sha256
        && stored.worktree_id == worktree_id
        && stored.expected_worktree_version == expected_worktree_version
}

/// The aggregates are exactly where a prepared finalization expects them.
pub open spec fn prepared_aggregates_match(
    f: ChangesetFinalization,
    changeset: ChangesetView,
    changeset_version: u64,
    worktree: WorktreeView,
    worktree_version: u64,
) -> bool {
    &&& changeset.state == ChangesetState::Reviewable
    &&& changeset_version == f.scope.expected_version
    &&& changeset.repository_id == f.scope.repository_id
    &&& changeset.base_sha@ == f.scope.base_sha@
    &&& changeset.head_sha@ == f.scope.expected_head_sha@
    &&& worktree.changeset_id == changeset.id
    &&& worktree.state == WorktreeState::Ready
    &&& worktree_version == f.expected_worktree_version
    &&& worktree.base_sha@ == f.scope.base_sha@
}

/// Refuses to finalize unless the aggregates are where preparation left them.
pub fn validate_prepared_finalization_aggregates(
    f: &ChangesetFinalization,
    changeset: &ChangesetView,
    changeset_version: u64,
    worktree: &WorktreeView,
    worktree_version: u64,
) -> (r: Result<(), PersistenceError>)
    ensures
        r == (if prepared_aggregates_match(*f, *changeset, changeset_version, *worktree, worktree_version) {
            Ok(())
        } else {
            Err(PersistenceError::FinalizationConflict)
        }),
{
    if changeset.state != ChangesetState::Reviewable || changeset_version != f.scope.expected_version
        || changeset.repository_id != f.scope.repository_id || changeset.base_sha != f.scope.base_sha
        || changeset.head_sha != f.scope.expected_head_sha || worktree.changeset_id != changeset.id
        || worktree.state != WorktreeState::Ready || worktree_version != f.expected_worktree_version
        || worktree.base_sha != f.scope.base_sha {
        return Err(PersistenceError::FinalizationConflict);
    }
    Ok(())
}

/// `x + 1`, or `u64::MAX` when `x` is `u64::MAX`.
pub open spec fn add_sat(x: u64, n: u64) -> u64 {
    if x + n > u64::MAX { u64::MAX } else { (x + n) as u64 }
}

/// The aggregates are exactly where a completed finalization left them.
pub open spec fn completed_aggregates_match(
    f: ChangesetFinalization,
    changeset: ChangesetView,
    changeset_version: u64,
    worktree: WorktreeView,
    worktree_version: u64,
) -> bool {
    let identity = changeset.repository_id == f.scope.repository_id && changeset.base_sha@ == f.scope.base_sha@
        && worktree.changeset_id == changeset.id && worktree.base_sha@ == f.scope.base_sha@
        && changeset_version == add_sat(f.scope.expected_version, 1)
        && worktree_version == add_sat(f.expected_worktree_version, 2)
        && worktree.state == WorktreeState::Removed;
    let result_ok = match f.result {
        Some(ChangesetFinalizationResult::Commit { resulting_head_sha, app_ref }) => {
            changeset.state == ChangesetState::Committed && changeset.head_sha@ == resulting_head_sha@
                && app_ref@ == changeset_ref_text(changeset.id)
        },
        Some(ChangesetFinalizationResult::Discard) => {
            changeset.state == ChangesetState::Discarded && changeset.head_sha@ == f.scope.expected_head_sha@
        },
        None => false,
    };
    identity && result_ok
}

/// Accepts a replayed completion only when the aggregates are where the
/// first completion left them.
pub fn validate_completed_finalization_replay(
    f: &ChangesetFinalization,
    changeset: &ChangesetView,
    changeset_version: u64,
    worktree: &WorktreeView,
    worktree_version: u64,
) -> (r: Result<(), PersistenceError>)
    ensures
        r == (if completed_aggregates_match(*f, *changeset, changeset_version, *worktree, worktree_version) {
            Ok(())
        } else {
            Err(PersistenceError::FinalizationConflict)
        }),
{
    let expected_changeset_version = f.scope.expected_version.saturating_add(1);
    let expected_worktree_version = f.expected_worktree_version.saturating_add(2);
    let identity = changeset.repository_id == f.scope.repository_id && changeset.base_sha == f.scope.base_sha
        && worktree.changeset_id == changeset.id && worktree.base_sha == f.scope.base_sha
        && changeset_version == expected_changeset_version && worktree_version == expected_worktree_version
        && worktree.state == WorktreeState::Removed;
    let result_ok = match &f.result {
        Some(ChangesetFinalizationResult::Commit { resulting_head_sha, app_ref }) => {
            let expected_ref = expected_changeset_ref(changeset.id);
            changeset.state == ChangesetState::Committed && changeset.head_sha == *resulting_head_sha
                && *app_ref == expected_ref
        },
        Some(ChangesetFinalizationResult::Discard) => {
            changeset.state == ChangesetState::Discarded && changeset.head_sha == f.scope.expected_head_sha
        },
        None => false,
    };
    if !identity || !result_ok {
        return Err(PersistenceError::FinalizationConflict);
    }
    Ok(())
}

/// The aggregates are exactly where marking the finalization divergent
/// left them.
pub open spec fn divergent_aggregates_match(
    f: ChangesetFinalization,
    changeset: ChangesetView,
    changeset_version: u64,
    worktree: WorktreeView,
    worktree_version: u64,
) -> bool {
    &&& changeset.state == ChangesetState::Divergent
    &&& changeset.repository_id == f.scope.repository_id
    &&& changeset.base_sha@ == f.scope.base_sha@
    &&& changeset_version == add_sat(f.scope.expected_version, 1)
    &&& worktree.state == WorktreeState::Quarantined
    &&& worktree.changeset_id == changeset.id
    &&& worktree.base_sha@ == f.scope.base_sha@
    &&& worktree_version == add_sat(f.expected_worktree_version, 1)
}

/// Accepts a replayed divergence only when the aggregates are where the
/// first marking left them.
pub fn validate_divergent_finalization_replay(
    f: &ChangesetFinalization,
    changeset: &ChangesetView,
    changeset_version: u64,
    worktree: &WorktreeView,
    worktree_version: u64,
) -> (r: Result<(), PersistenceError>)
    ensures
        r == (if divergent_aggregates_match(*f, *changeset, changeset_version, *worktree, worktree_version) {
            Ok(())
        } else {
            Err(PersistenceError::FinalizationConflict)
        }),
{
    if changeset.state != ChangesetState::Divergent || changeset.repository_id != f.scope.repository_id
        || changeset.base_sha != f.scope.base_sha
        || changeset_version != f.scope.expected_version.saturating_add(1)
        || worktree.state != WorktreeState::Quarantined || worktree.changeset_id != changeset.id
        || worktree.base_sha != f.scope.base_sha
        || worktree_version != f.expected_worktree_version.saturating_add(1) {
        return Err(PersistenceError::FinalizationConflict);
    }
    Ok(())
}

/// Where a finished finalization moves the changeset and the worktree,
/// with the versions they are written at.
#[derive(Debug, Clone, PartialEq, Eq)]
pub struct FinalizedAggregates {
    pub changeset: ChangesetView,
    pub changeset_version: u64,
    pub worktree: WorktreeView,
    pub worktree_version: u64,
}

/// What a finalization request does to the stored record.
#[derive(Debug)]
pub enum FinalizationStep {
    /// The request was already carried out; the stored record stands.
    Replay,
    /// The new record to write; the changeset and worktree stay as they are.
    Apply(ChangesetFinalization),
    /// The record to write, and where the changeset and worktree move.
    Finish(ChangesetFinalization, FinalizedAggregates),
}

/// Completing with `result` moves the changeset to `Committed` at the
/// resulting head (or `Discarded` at its head) one version on, and the
/// worktree through `Removing` to `Removed`, two versions on.
pub open spec fn completion_moves(
    result: ChangesetFinalizationResult,
    changeset: ChangesetView,
    changeset_version: u64,
    worktree: WorktreeView,
    worktree_version: u64,
    m: FinalizedAggregates,
) -> bool {
    &&& m.changeset.id == changeset.id
    &&& m.changeset.repository_id == changeset.repository_id
    &&& m.changeset.base_sha@ == changeset.base_sha@
    &&& match result {
        ChangesetFinalizationResult::Commit { resulting_head_sha, app_ref } => m.changeset.state
            == ChangesetState::Committed && m.changeset.head_sha@ == resulting_head_sha@,
        ChangesetFinalizationResult::Discard => m.changeset.state == ChangesetState::Discarded
            && m.changeset.head_sha@ == changeset.head_sha@,
    }
    &&& m.changeset_version == add_sat(changeset_version, 1)
    &&& m.worktree.id == worktree.id
    &&& m.worktree.changeset_id == worktree.changeset_id
    &&& m.worktree.base_sha@ == worktree.base_sha@
    &&& m.worktree.state == WorktreeState::Removed
    &&& m.worktree_version == add_sat(worktree_version, 2)
}

/// Marking divergent moves the changeset to `Divergent` at the observed
/// head and the worktree to `Quarantined`, each one version on.
pub open spec fn divergence_moves(
    observed_head_sha: Seq<char>,
    changeset: ChangesetView,
    changeset_version: u64,
    worktree: WorktreeView,
    worktree_version: u64,
    m: FinalizedAggregates,
) -> bool {
    &&& m.changeset.id == changeset.id
    &&& m.changeset.repository_id == changeset.repository_id
    &&& m.changeset.base_sha@ == changeset.base_sha@
    &&& m.changeset.state == ChangesetState::Divergent
    &&& m.changeset.head_sha@ == observed_head_sha
    &&& m.changeset_version == add_sat(changeset_version, 1)
    &&& m.worktree.id == worktree.id
    &&& m.worktree.changeset_id == worktree.changeset_id
    &&& m.worktree.base_sha@ == worktree.base_sha@
    &&& m.worktree.state == WorktreeState::Quarantined
    &&& m.worktree_version == add_sat(worktree_version, 1)
}

/// The request's digest and scope can be checked before any storage is read.
pub open spec fn request_check(
    confirmation_digest: Seq<char>,
    scope_digest: Seq<char>,
    scope: ChangesetMutationScope,
) -> Result<(), PersistenceError> {
    if !is_sha256_digest_text(confirmation_digest) || confirmation_digest != scope_digest {
        Err(PersistenceError::FinalizationDigestMismatch)
    } else if !scope_valid(scope) {
        Err(PersistenceError::InvalidFinalizationInput("mutation scope"))
    } else {
        Ok(())
    }
}

/// Checks a preparation request: the confirmation digest must be a SHA-256
/// digest equal to the digest of the scope (`scope_digest`), and the scope
/// must be valid.
pub fn check_finalization_request(
    confirmation_digest: &str,
    scope_digest: &str,
    scope: &ChangesetMutationScope,
) -> (r: Result<(), PersistenceError>)
    ensures
        r == request_check(confirmation_digest@, scope_digest@, *scope),
{
    if !is_sha256_digest(confirmation_digest) || confirmation_digest.to_owned() != scope_digest.to_owned() {
        return Err(PersistenceError::FinalizationDigestMismatch);
    }
    validate_finalization_scope(scope)
}

/// The preconditions under which a finalization may be prepared.
pub open spec fn preparation_allowed(
    scope: ChangesetMutationScope,
    changeset: ChangesetView,
    worktree: WorktreeView,
    checkpoint: CheckpointView,
) -> bool {
    &&& changeset.repository_id == scope.repository_id
    &&& changeset.state == ChangesetState::Reviewable
    &&& changeset.base_sha@ == scope.base_sha@
    &&& changeset.head_sha@ == scope.expected_head_sha@
    &&& worktree.changeset_id == scope.changeset_id
    &&& worktree.state == WorktreeState::Ready
    &&& worktree.base_sha@ == scope.base_sha@
    &&& checkpoint.base_sha@ == scope.base_sha@
    &&& checkpoint.head_sha@ == scope.expected_head_sha@
}

/// Decides a preparation request once the stored record (if any) and the
/// aggregates are read: an identical earlier preparation is replayed, a
/// different one conflicts, and a new preparation requires the exact
/// versions and states named by the scope.
pub fn decide_preparation(
    existing: Option<ChangesetFinalization>,
    confirmation_digest: &str,
    scope: &ChangesetMutationScope,
    worktree_id: u128,
    expected_worktree_version: u64,
    now_unix_ms: i64,
    changeset: &ChangesetView,
    changeset_version: u64,
    worktree: &WorktreeView,
    worktree_version: u64,
    checkpoint: &CheckpointView,
) -> (r: Result<FinalizationStep, PersistenceError>)
    ensures
        existing is Some ==> (if matches_request(existing.unwrap(), confirmation_digest@, *scope, worktree_id,
            expected_worktree_version) {
            r matches Ok(FinalizationStep::Replay)
        } else {
            r == Err::<FinalizationStep, PersistenceError>(PersistenceError::FinalizationConflict)
        }),
        existing is None && changeset_version != scope.expected_version ==> r == Err::<FinalizationStep, PersistenceError>(
            PersistenceError::VersionConflict {
                aggregate: "changeset",
                id: changeset.id,
                expected: scope.expected_version,
                actual: changeset_version,
            }),
        existing is None && changeset_version == scope.expected_version && worktree_version != expected_worktree_version
            ==> r == Err::<FinalizationStep, PersistenceError>(PersistenceError::VersionConflict {
            aggregate: "worktree",
            id: worktree.id,
            expected: expected_worktree_version,
            actual: worktree_version,
        }),
        existing is None && changeset_version == scope.expected_version && worktree_version == expected_worktree_version
            ==> (if preparation_allowed(*scope, *changeset, *worktree, *checkpoint) {
            r matches Ok(FinalizationStep::Apply(f)) && prepared_record(confirmation_digest@, *scope, worktree_id,
                expected_worktree_version, now_unix_ms, f)
        } else {
            r == Err::<FinalizationStep, PersistenceError>(PersistenceError::InvalidPersistedTransition(
                "changeset finalization preparation"))
        }),
{
    if let Some(stored) = existing {
        if finalization_matches_request(&stored, confirmation_digest, scope, worktree_id, expected_worktree_version) {
            return Ok(FinalizationStep::Replay);
        }
        return Err(PersistenceError::FinalizationConflict);
    }
    if changeset_version != scope.expected_version {
        return Err(PersistenceError::VersionConflict {
            aggregate: "changeset",
            id: changeset.id,
            expected: scope.expected_version,
            actual: changeset_version,
        });
    }
    if worktree_version != expected_worktree_version {
        return Err(PersistenceError::VersionConflict {
            aggregate: "worktree",
            id: worktree.id,
            expected: expected_worktree_version,
            actual: worktree_version,
        });
    }
    if changeset.repository_id != scope.repository_id || changeset.state != ChangesetState::Reviewable
        || changeset.base_sha != scope.base_sha || changeset.head_sha != scope.expected_head_sha
        || worktree.changeset_id != scope.changeset_id || worktree.state != WorktreeState::Ready
        || worktree.base_sha != scope.base_sha || checkpoint.base_sha != scope.base_sha
        || checkpoint.head_sha != scope.expected_head_sha {
        return Err(PersistenceError::InvalidPersistedTransition("changeset finalization preparation"));
    }
    Ok(FinalizationStep::Apply(prepared_finalization(
        confirmation_digest,
        scope,
        worktree_id,
        expected_worktree_version,
        now_unix_ms,
    )))
}

/// The record after a prepared finalization completes with `result`.
pub open spec fn completed_from(f: ChangesetFinalization, result: ChangesetFinalizationResult, now_unix_ms: i64, g: ChangesetFinalization) -> bool {
    &&& g.confirmation_digest == f.confirmation_digest
    &&& g.scope == f.scope
    &&& g.worktree_id == f.worktree_id
    &&& g.expected_worktree_version == f.expected_worktree_version
    &&& g.state == ChangesetFinalizationState::Completed
    &&& g.result == Some(result)
    &&& g.divergence_detail == f.divergence_detail
    &&& g.version == add_sat(f.version, 1)
    &&& g.created_at_unix_ms == f.created_at_unix_ms
    &&& g.updated_at_unix_ms == now_unix_ms
}

/// Decides a completion request for the stored record `f`, given the
/// aggregates as stored: a completed record is replayed only with the same
/// result and untouched aggregates; a prepared record is completed when the
/// result fits the scope, the aggregates are as prepared and time has not
/// gone backwards.
pub fn decide_completion(
    f: ChangesetFinalization,
    result: ChangesetFinalizationResult,
    now_unix_ms: i64,
    changeset: &ChangesetView,
    changeset_version: u64,
    worktree: &WorktreeView,
    worktree_version: u64,
) -> (r: Result<FinalizationStep, PersistenceError>)
    ensures
        f.state == ChangesetFinalizationState::Completed ==> (if f.result is Some && same_result(f.result.unwrap(), result)
            && completed_aggregates_match(f, *changeset, changeset_version, *worktree, worktree_version) {
            r matches Ok(FinalizationStep::Replay)
        } else {
            r == Err::<FinalizationStep, PersistenceError>(PersistenceError::FinalizationConflict)
        }),
        f.state == ChangesetFinalizationState::Divergent ==> r == Err::<FinalizationStep, PersistenceError>(
            PersistenceError::FinalizationConflict),
        f.state == ChangesetFinalizationState::Prepared ==> (if result_check(f.scope, result) is Err {
            r == Err::<FinalizationStep, PersistenceError>(result_check(f.scope, result)->Err_0)
        } else if !prepared_aggregates_match(f, *changeset, changeset_version, *worktree, worktree_version) {
            r == Err::<FinalizationStep, PersistenceError>(PersistenceError::FinalizationConflict)
        } else if now_unix_ms < f.created_at_unix_ms {
            r == Err::<FinalizationStep, PersistenceError>(PersistenceError::InvalidFinalizationInput("timestamp"))
        } else {
            r matches Ok(FinalizationStep::Finish(g, m)) && completed_from(f, result, now_unix_ms, g)
                && completion_moves(result, *changeset, changeset_version, *worktree, worktree_version, m)
        }),
{
    if f.state == ChangesetFinalizationState::Completed {
        let same = match &f.result {
            Some(stored) => results_equal(stored, &result),
            None => false,
        };
        if !same {
            return Err(PersistenceError::FinalizationConflict);
        }
        validate_completed_finalization_replay(&f, changeset, changeset_version, worktree, worktree_version)?;
        return Ok(FinalizationStep::Replay);
    }
    if f.state != ChangesetFinalizationState::Prepared {
        return Err(PersistenceError::FinalizationConflict);
    }
    validate_finalization_result(&f.scope, &result)?;
    validate_prepared_finalization_aggregates(&f, changeset, changeset_version, worktree, worktree_version)?;
    if now_unix_ms < f.created_at_unix_ms {
        return Err(PersistenceError::InvalidFinalizationInput("timestamp"));
    }
    let (state, head_sha) = match &result {
        ChangesetFinalizationResult::Commit { resulting_head_sha, .. } => (ChangesetState::Committed, resulting_head_sha.clone()),
        ChangesetFinalizationResult::Discard => (ChangesetState::Discarded, changeset.head_sha.clone()),
    };
    let moved = FinalizedAggregates {
        changeset: ChangesetView {
            id: changeset.id,
            repository_id: changeset.repository_id,
            state,
            base_sha: changeset.base_sha.clone(),
            head_sha,
        },
        changeset_version: changeset_version.saturating_add(1),
        worktree: WorktreeView {
            id: worktree.id,
            changeset_id: worktree.changeset_id,
            state: WorktreeState::Removed,
            base_sha: worktree.base_sha.clone(),
        },
        worktree_version: worktree_version.saturating_add(2),
    };
    let mut g = f;
    g.state = ChangesetFinalizationState::Completed;
    g.result = Some(result);
    g.version = g.version.saturating_add(1);
    g.updated_at_unix_ms = now_unix_ms;
    Ok(FinalizationStep::Finish(g, moved))
}

/// The record after a prepared finalization is marked divergent.
pub open spec fn divergent_from(f: ChangesetFinalization, detail: Seq<char>, now_unix_ms: i64, g: ChangesetFinalization) -> bool {
    &&& g.confirmation_digest == f.confirmation_digest
    &&& g.scope == f.scope
    &&& g.worktree_id == f.worktree_id
    &&& g.expected_worktree_version == f.expected_worktree_version
    &&& g.state == ChangesetFinalizationState::Divergent
    &&& g.result == f.result
    &&& g.divergence_detail is Some
    &&& g.divergence_detail.unwrap()@ == detail
    &&& g.version == add_sat(f.version, 1)
    &&& g.created_at_unix_ms == f.created_at_unix_ms
    &&& g.updated_at_unix_ms == now_unix_ms
}

/// The divergence report itself can be checked before any storage is read:
/// the detail must be non-empty and within `max_detail_bytes` bytes, and the
/// observed head must be a Git object id.
pub open spec fn divergence_request_check(detail_bytes: nat, observed_head_sha: Seq<char>, max_detail_bytes: nat) -> Result<(), PersistenceError> {
    if detail_bytes == 0 || detail_bytes > max_detail_bytes {
        Err(PersistenceError::ResourceLimit("finalization divergence detail"))
    } else if !is_git_object_id_text(observed_head_sha) {
        Err(PersistenceError::InvalidFinalizationInput("observed head sha"))
    } else {
        Ok(())
    }
}

/// Checks a divergence report before storage is read.
pub fn check_divergence_request(detail: &str, observed_head_sha: &str, max_detail_bytes: usize) -> (r: Result<(), PersistenceError>)
    ensures
        r == divergence_request_check(utf8_len(detail@), observed_head_sha@, max_detail_bytes as nat),
{
    let bytes = detail.as_bytes().len();
    if bytes == 0 || bytes > max_detail_bytes {
        return Err(PersistenceError::ResourceLimit("finalization divergence detail"));
    }
    if !is_git_object_id(observed_head_sha) {
        return Err(PersistenceError::InvalidFinalizationInput("observed head sha"));
    }
    Ok(())
}

/// Decides a divergence request for the stored record `f`, given the
/// aggregates as stored.
pub fn decide_divergence(
    f: ChangesetFinalization,
    observed_head_sha: &str,
    detail: String,
    now_unix_ms: i64,
    changeset: &ChangesetView,
    changeset_version: u64,
    worktree: &WorktreeView,
    worktree_version: u64,
) -> (r: Result<FinalizationStep, PersistenceError>)
    ensures
        f.state == ChangesetFinalizationState::Divergent ==> (if f.divergence_detail is Some
            && f.divergence_detail.unwrap()@ == detail@ && changeset.head_sha@ == observed_head_sha@
            && divergent_aggregates_match(f, *changeset, changeset_version, *worktree, worktree_version) {
            r matches Ok(FinalizationStep::Replay)
        } else {
            r == Err::<FinalizationStep, PersistenceError>(PersistenceError::FinalizationConflict)
        }),
        f.state == ChangesetFinalizationState::Completed ==> r == Err::<FinalizationStep, PersistenceError>(
            PersistenceError::FinalizationConflict),
        f.state == ChangesetFinalizationState::Prepared ==> (if !prepared_aggregates_match(f, *changeset,
            changeset_version, *worktree, worktree_version) {
            r == Err::<FinalizationStep, PersistenceError>(PersistenceError::FinalizationConflict)
        } else if now_unix_ms < f.created_at_unix_ms {
            r == Err::<FinalizationStep, PersistenceError>(PersistenceError::InvalidFinalizationInput("timestamp"))
        } else {
            r matches Ok(FinalizationStep::Finish(g, m)) && divergent_from(f, detail@, now_unix_ms, g)
                && divergence_moves(observed_head_sha@, *changeset, changeset_version, *worktree, worktree_version, m)
        }),
{
    if f.state == ChangesetFinalizationState::Divergent {
        let same_detail = match &f.divergence_detail {
            Some(stored) => *stored == detail,
            None => false,
        };
        if !same_detail || changeset.head_sha.as_str().to_owned() != observed_head_sha.to_owned() {
            return Err(PersistenceError::FinalizationConflict);
        }
        validate_divergent_finalization_replay(&f, changeset, changeset_version, worktree, worktree_version)?;
        return Ok(FinalizationStep::Replay);
    }
    if f.state != ChangesetFinalizationState::Prepared {
        return Err(PersistenceError::FinalizationConflict);
    }
    validate_prepared_finalization_aggregates(&f, changeset, changeset_version, worktree, worktree_version)?;
    if now_unix_ms < f.created_at_unix_ms {
        return Err(PersistenceError::InvalidFinalizationInput("timestamp"));
    }
    let moved = FinalizedAggregates {
        changeset: ChangesetView {
            id: changeset.id,
            repository_id: changeset.repository_id,
            state: ChangesetState::Divergent,
            base_sha: changeset.base_sha.clone(),
            head_sha: observed_head_sha.to_owned(),
        },
        changeset_version: changeset_version.saturating_add(1),
        worktree: WorktreeView {
            id: worktree.id,
            changeset_id: worktree.changeset_id,
            state: WorktreeState::Quarantined,
            base_sha: worktree.base_sha.clone(),
        },
        worktree_version: worktree_version.saturating_add(1),
    };
    let mut g = f;
    g.state = ChangesetFinalizationState::Divergent;
    g.divergence_detail = Some(detail);
    g.version = g.version.saturating_add(1);
    g.updated_at_unix_ms = now_unix_ms;
    Ok(FinalizationStep::Finish(g, moved))
}

/// A newly prepared record is well formed when the request passed its
/// checks.
pub proof fn lemma_prepared_record_is_valid(
    confirmation_digest: Seq<char>,
    scope_digest: Seq<char>,
    scope: ChangesetMutationScope,
    worktree_id: u128,
    expected_worktree_version: u64,
    now_unix_ms: i64,
    f: ChangesetFinalization,
    max_detail_bytes: nat,
)
    requires
        request_check(confirmation_digest, scope_digest, scope) is Ok,
        prepared_record(confirmation_digest, scope, worktree_id, expected_worktree_version, now_unix_ms, f),
    ensures
        record_valid(f, scope_digest, max_detail_bytes),
{
}

/// Completing a well-formed prepared record with an accepted result, at or
/// after its preparation time, gives a well-formed completed record.
pub proof fn lemma_completion_keeps_record_valid(
    f: ChangesetFinalization,
    result: ChangesetFinalizationResult,
    now_unix_ms: i64,
    g: ChangesetFinalization,
    scope_digest: Seq<char>,
    max_detail_bytes: nat,
)
    requires
        record_valid(f, scope_digest, max_detail_bytes),
        f.state == ChangesetFinalizationState::Prepared,
        result_check(f.scope, result) is Ok,
        now_unix_ms >= f.created_at_unix_ms,
        completed_from(f, result, now_unix_ms, g),
    ensures
        record_valid(g, scope_digest, max_detail_bytes),
{
}

/// Marking a well-formed prepared record divergent with an accepted detail,
/// at or after its preparation time, gives a well-formed divergent record.
pub proof fn lemma_divergence_keeps_record_valid(
    f: ChangesetFinalization,
    detail: Seq<char>,
    now_unix_ms: i64,
    g: ChangesetFinalization,
    scope_digest: Seq<char>,
    max_detail_bytes: nat,
)
    requires
        record_valid(f, scope_digest, max_detail_bytes),
        f.state == ChangesetFinalizationState::Prepared,
        0 < utf8_len(detail) <= max_detail_bytes,
        now_unix_ms >= f.created_at_unix_ms,
        divergent_from(f, detail, now_unix_ms, g),
    ensures
        record_valid(g, scope_digest, max_detail_bytes),
{
}

/// Preparation is replay safe: once a request's record is stored, the same
/// request matches it (and is replayed), while a request for another
/// revision or worktree conflicts.
pub proof fn lemma_preparation_replays(
    confirmation_digest: Seq<char>,
    scope: ChangesetMutationScope,
    worktree_id: u128,
    expected_worktree_version: u64,
    now_unix_ms: i64,
    f: ChangesetFinalization,
    other_worktree_id: u128,
)
    requires
        prepared_record(confirmation_digest, scope, worktree_id, expected_worktree_version, now_unix_ms, f),
    ensures
        matches_request(f, confirmation_digest, scope, worktree_id, expected_worktree_version),
        other_worktree_id != worktree_id ==> !matches_request(
            f,
            confirmation_digest,
            scope,
            other_worktree_id,
            expected_worktree_version,
        ),
{
}

/// Completion is replay safe: a completed record carries the result it was
/// completed with, so the same result is recognised again and a different
/// one is not.
pub proof fn lemma_completion_replays(
    f: ChangesetFinalization,
    result: ChangesetFinalizationResult,
    other: ChangesetFinalizationResult,
    now_unix_ms: i64,
    g: ChangesetFinalization,
)
    requires
        completed_from(f, result, now_unix_ms, g),
    ensures
        g.state == ChangesetFinalizationState::Completed,
        g.result is Some && same_result(g.result.unwrap(), result),
        !same_result(result, other) ==> !same_result(g.result.unwrap(), other),
{
}

/// What completion writes is what its replay accepts: after a prepared
/// finalization of the loaded changeset completes with a result that fits
/// its scope, the completed record and the moved aggregates pass the replay
/// check.
pub proof fn lemma_completion_writes_what_replay_accepts(
    f: ChangesetFinalization,
    result: ChangesetFinalizationResult,
    now_unix_ms: i64,
    changeset: ChangesetView,
    changeset_version: u64,
    worktree: WorktreeView,
    worktree_version: u64,
    g: ChangesetFinalization,
    m: FinalizedAggregates,
)
    requires
        changeset.id == f.scope.changeset_id,
        result_check(f.scope, result) is Ok,
        prepared_aggregates_match(f, changeset, changeset_version, worktree, worktree_version),
        completed_from(f, result, now_unix_ms, g),
        completion_moves(result, changeset, changeset_version, worktree, worktree_version, m),
    ensures
        completed_aggregates_match(g, m.changeset, m.changeset_version, m.worktree, m.worktree_version),
{
}

/// What marking divergent writes is what its replay accepts: the divergent
/// record and the moved aggregates pass the replay check, with the
/// changeset at the observed head.
pub proof fn lemma_divergence_writes_what_replay_accepts(
    f: ChangesetFinalization,
    observed_head_sha: Seq<char>,
    detail: Seq<char>,
    now_unix_ms: i64,
    changeset: ChangesetView,
    changeset_version: u64,
    worktree: WorktreeView,
    worktree_version: u64,
    g: ChangesetFinalization,
    m: FinalizedAggregates,
)
    requires
        prepared_aggregates_match(f, changeset, changeset_version, worktree, worktree_version),
        divergent_from(f, detail, now_unix_ms, g),
        divergence_moves(observed_head_sha, changeset, changeset_version, worktree, worktree_version, m),
    ensures
        divergent_aggregates_match(g, m.changeset, m.changeset_version, m.worktree, m.worktree_version),
        m.changeset.head_sha@ == observed_head_sha,
{
}

} // verus!
