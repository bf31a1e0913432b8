//! Errors of the persistence layer.

use vstd::prelude::*;

verus! {

/// Why a persistence operation was refused or failed.
///
/// Failures of the database, the filesystem, serialization and the domain
/// model carry the underlying message as text.
#[derive(Debug, Clone, PartialEq, Eq)]
pub enum PersistenceError {
    Io(String),
    Sqlite(String),
    Json(String),
    NotFound(&'static str),
    Domain(String),
    InvalidPersistedTransition(&'static str),
    ApprovalDoesNotMatchRun,
    RunDriveAlreadyClaimed,
    ResourceLimit(&'static str),
    MixedFindingOwners,
    UnsupportedSchemaVersion { database: u32, runtime: u32 },
    VersionConflict { aggregate: &'static str, id: u128, expected: u64, actual: u64 },
    CorruptVersion { aggregate: &'static str, id: u128, scalar: u64, serialized: u64 },
    MutationLeaseHeld { changeset_id: u128, run_id: u128, expires_at_unix_ms: i64 },
    MutationLeaseMismatch,
    MutationLeaseExpired,
    InvalidLeaseTtl,
    CorruptLease,
    FencingEpochExhausted,
    InvalidProcessSupervisionTransition,
    CorruptProcessSupervision,
    InvalidRecoveryAction,
    RecoveryActionConflict,
    CorruptRecoveryAction,
    FinalizationDigestMismatch,
    InvalidFinalizationInput(&'static str),
    FinalizationConflict,
    FinalizationKindMismatch,
    CorruptFinalization,
    InvalidArtifactPolicy,
    InvalidArtifactRoot,
    ArtifactMetadataCorrupt,
    ArtifactIntegrityMismatch,
    CorruptOwnership(&'static str),
    CorruptIdentifier(&'static str),
}

} // verus!
