//! Fenced mutation leases on changesets.
//!
//! At most one run may hold the mutation lease of a changeset until the
//! lease expires. Renewing keeps the fencing epoch; taking over an expired
//! lease increments it, so that a stale holder is refused afterwards.

use vstd::prelude::*;
use crate::digest::{parse_uuid, parse_uuid_text};
use crate::error::PersistenceError;
use crate::time::Duration;

verus! {

/// A run's exclusive right to mutate a changeset until `expires_at_unix_ms`.
#[derive(Debug, Clone, Copy, PartialEq, Eq)]
pub struct MutationLease {
    pub changeset_id: u128,
    pub run_id: u128,
    pub fencing_epoch: u64,
    pub expires_at_unix_ms: i64,
}

/// A lease time-to-live is usable: positive and representable in
/// milliseconds.
pub open spec fn ttl_valid(ttl: Duration, now_unix_ms: i64) -> bool {
    &&& ttl.total_millis() > 0
    &&& ttl.total_millis() <= i64::MAX
    &&& now_unix_ms + ttl.total_millis() <= i64::MAX
}

/// The outcome of asking for the mutation lease of `changeset_id` on behalf
/// of `run_id` at `now_unix_ms`, given the stored lease.
pub open spec fn lease_acquisition(
    existing: Option<MutationLease>,
    changeset_id: u128,
    run_id: u128,
    now_unix_ms: i64,
    ttl: Duration,
) -> Result<MutationLease, PersistenceError> {
    if !ttl_valid(ttl, now_unix_ms) {
        Err(PersistenceError::InvalidLeaseTtl)
    } else {
        let expires = (now_unix_ms + ttl.total_millis()) as i64;
        match existing {
            Some(held) => {
                if held.expires_at_unix_ms > now_unix_ms && held.run_id != run_id {
                    Err(PersistenceError::MutationLeaseHeld {
                        changeset_id,
                        run_id: held.run_id,
                        expires_at_unix_ms: held.expires_at_unix_ms,
                    })
                } else if held.expires_at_unix_ms > now_unix_ms {
                    Ok(MutationLease { changeset_id, expires_at_unix_ms: expires, ..held })
                } else if held.fencing_epoch == u64::MAX {
                    Err(PersistenceError::FencingEpochExhausted)
                } else {
                    Ok(MutationLease {
                        changeset_id,
                        run_id,
                        fencing_epoch: (held.fencing_epoch + 1) as u64,
                        expires_at_unix_ms: expires,
                    })
                }
            },
            None => Ok(MutationLease { changeset_id, run_id, fencing_epoch: 1, expires_at_unix_ms: expires }),
        }
    }
}

/// The outcome of presenting a lease identity at `now_unix_ms`.
pub open spec fn lease_verification(
    stored: Option<MutationLease>,
    run_id: u128,
    fencing_epoch: u64,
    now_unix_ms: i64,
) -> Result<MutationLease, PersistenceError> {
    match stored {
        None => Err(PersistenceError::MutationLeaseMismatch),
        Some(lease) => {
            if lease.run_id != run_id || lease.fencing_epoch != fencing_epoch {
                Err(PersistenceError::MutationLeaseMismatch)
            } else if lease.expires_at_unix_ms <= now_unix_ms {
                Err(PersistenceError::MutationLeaseExpired)
            } else {
                Ok(lease)
            }
        },
    }
}

/// Decides the lease that `run_id` obtains on `changeset_id`, given the
/// lease stored for that changeset; the caller stores the result.
pub fn acquire_mutation_lease(
    existing: Option<MutationLease>,
    changeset_id: u128,
    run_id: u128,
    now_unix_ms: i64,
    ttl: Duration,
) -> (r: Result<MutationLease, PersistenceError>)
    ensures
        r == lease_acquisition(existing, changeset_id, run_id, now_unix_ms, ttl),
        r matches Ok(lease) ==> lease.changeset_id == changeset_id,
{
    let ttl_millis = ttl.as_millis();
    if ttl_millis == 0 || ttl_millis > i64::MAX as u128 {
        return Err(PersistenceError::InvalidLeaseTtl);
    }
    let ttl_millis = ttl_millis as i64;
    let expires_at_unix_ms = match now_unix_ms.checked_add(ttl_millis) {
        Some(value) => value,
        None => return Err(PersistenceError::InvalidLeaseTtl),
    };
    match existing {
        Some(held) => {
            if held.expires_at_unix_ms > now_unix_ms && held.run_id != run_id {
                Err(PersistenceError::MutationLeaseHeld {
                    changeset_id,
                    run_id: held.run_id,
                    expires_at_unix_ms: held.expires_at_unix_ms,
                })
            } else if held.expires_at_unix_ms > now_unix_ms {
                Ok(MutationLease { changeset_id, expires_at_unix_ms, ..held })
            } else {
                match held.fencing_epoch.checked_add(1) {
                    Some(fencing_epoch) => Ok(MutationLease {
                        changeset_id,
                        run_id,
                        fencing_epoch,
                        expires_at_unix_ms,
                    }),
                    None => Err(PersistenceError::FencingEpochExhausted),
                }
            }
        },
        None => Ok(MutationLease { changeset_id, run_id, fencing_epoch: 1, expires_at_unix_ms }),
    }
}

/// Checks that the stored lease is held by `run_id` at `fencing_epoch` and
/// has not expired at `now_unix_ms`.
pub fn verify_mutation_lease(
    stored: Option<MutationLease>,
    run_id: u128,
    fencing_epoch: u64,
    now_unix_ms: i64,
) -> (r: Result<MutationLease, PersistenceError>)
    ensures
        r == lease_verification(stored, run_id, fencing_epoch, now_unix_ms),
{
    match stored {
        None => Err(PersistenceError::MutationLeaseMismatch),
        Some(lease) => {
            if lease.run_id != run_id || lease.fencing_epoch != fencing_epoch {
                Err(PersistenceError::MutationLeaseMismatch)
            } else if lease.expires_at_unix_ms <= now_unix_ms {
                Err(PersistenceError::MutationLeaseExpired)
            } else {
                Ok(lease)
            }
        },
    }
}

/// Whether releasing the lease as `run_id` at `fencing_epoch` removes the
/// stored lease: only its exact holder and epoch release it.
pub fn release_removes_lease(stored: Option<MutationLease>, run_id: u128, fencing_epoch: u64) -> (r: bool)
    ensures
        r == (stored is Some && stored.unwrap().run_id == run_id
            && stored.unwrap().fencing_epoch == fencing_epoch),
{
    match stored {
        Some(lease) => lease.run_id == run_id && lease.fencing_epoch == fencing_epoch,
        None => false,
    }
}

/// A stored lease row: its scalar columns beside the lease decoded from its
/// serialized body.
pub struct MutationLeaseRow {
    pub changeset_id: String,
    pub run_id: String,
    pub fencing_epoch: u64,
    pub expires_at_unix_ms: i64,
}

/// The outcome of checking a stored lease row against its decoded body.
pub open spec fn lease_row_check(
    changeset_id: Seq<char>,
    run_id: Seq<char>,
    fencing_epoch: u64,
    expires_at_unix_ms: i64,
    body: MutationLease,
) -> Result<MutationLease, PersistenceError> {
    match parse_uuid_text(changeset_id) {
        None => Err(PersistenceError::CorruptLease),
        Some(scalar_changeset_id) => match parse_uuid_text(run_id) {
            None => Err(PersistenceError::CorruptLease),
            Some(scalar_run_id) => {
                if body.changeset_id != scalar_changeset_id || body.run_id != scalar_run_id
                    || body.fencing_epoch != fencing_epoch
                    || body.expires_at_unix_ms != expires_at_unix_ms {
                    Err(PersistenceError::CorruptLease)
                } else {
                    Ok(body)
                }
            },
        },
    }
}

/// Checks that the scalar columns of a stored lease agree with its body.
pub fn validate_mutation_lease(row: &MutationLeaseRow, body: MutationLease) -> (r: Result<
    MutationLease,
    PersistenceError,
>)
    ensures
        r == lease_row_check(row.changeset_id@, row.run_id@, row.fencing_epoch, row.expires_at_unix_ms, body),
{
    let scalar_changeset_id = match parse_uuid(row.changeset_id.as_str()) {
        Some(id) => id,
        None => return Err(PersistenceError::CorruptLease),
    };
    let scalar_run_id = match parse_uuid(row.run_id.as_str()) {
        Some(id) => id,
        None => return Err(PersistenceError::CorruptLease),
    };
    if body.changeset_id != scalar_changeset_id || body.run_id != scalar_run_id
        || body.fencing_epoch != row.fencing_epoch
        || body.expires_at_unix_ms != row.expires_at_unix_ms {
        return Err(PersistenceError::CorruptLease);
    }
    Ok(body)
}

/// While a lease is unexpired, no other run obtains it: the request of a
/// different run is answered with `MutationLeaseHeld` naming the holder,
/// or with `InvalidLeaseTtl` when its own time-to-live is unusable.
pub proof fn lemma_unexpired_lease_excludes_other_runs(
    held: MutationLease,
    changeset_id: u128,
    other_run_id: u128,
    now_unix_ms: i64,
    ttl: Duration,
)
    requires
        held.run_id != other_run_id,
        now_unix_ms < held.expires_at_unix_ms,
    ensures
        lease_acquisition(Some(held), changeset_id, other_run_id, now_unix_ms, ttl) is Err,
        ttl_valid(ttl, now_unix_ms) ==> lease_acquisition(Some(held), changeset_id, other_run_id, now_unix_ms, ttl)
            == Err::<MutationLease, PersistenceError>(PersistenceError::MutationLeaseHeld {
                changeset_id,
                run_id: held.run_id,
                expires_at_unix_ms: held.expires_at_unix_ms,
            }),
{
}

/// A freshly obtained lease verifies for its holder at its own epoch until
/// it expires, and it expires after the moment it was obtained.
pub proof fn lemma_acquired_lease_verifies(
    existing: Option<MutationLease>,
    changeset_id: u128,
    run_id: u128,
    now_unix_ms: i64,
    ttl: Duration,
    later_unix_ms: i64,
)
    requires
        lease_acquisition(existing, changeset_id, run_id, now_unix_ms, ttl) is Ok,
    ensures
        ({
            let lease = lease_acquisition(existing, changeset_id, run_id, now_unix_ms, ttl).unwrap();
            &&& lease.run_id == run_id
            &&& lease.expires_at_unix_ms == now_unix_ms + ttl.total_millis()
            &&& lease.expires_at_unix_ms > now_unix_ms
            &&& (later_unix_ms < lease.expires_at_unix_ms ==> lease_verification(Some(lease), run_id,
                lease.fencing_epoch, later_unix_ms) == Ok::<MutationLease, PersistenceError>(lease))
        }),
{
}

/// Taking over an expired lease increments the fencing epoch, so that the
/// previous holder's epoch no longer verifies.
pub proof fn lemma_takeover_fences_stale_holder(
    held: MutationLease,
    changeset_id: u128,
    new_run_id: u128,
    now_unix_ms: i64,
    ttl: Duration,
    later_unix_ms: i64,
)
    requires
        held.expires_at_unix_ms <= now_unix_ms,
        lease_acquisition(Some(held), changeset_id, new_run_id, now_unix_ms, ttl) is Ok,
    ensures
        ({
            let lease = lease_acquisition(Some(held), changeset_id, new_run_id, now_unix_ms, ttl).unwrap();
            &&& lease.fencing_epoch == held.fencing_epoch + 1
            &&& lease.run_id == new_run_id
            &&& lease_verification(Some(lease), held.run_id, held.fencing_epoch, later_unix_ms)
                == Err::<MutationLease, PersistenceError>(PersistenceError::MutationLeaseMismatch)
        }),
{
}

/// Renewing an unexpired lease of a changeset by its holder keeps its
/// fencing epoch and moves its expiry to the new deadline.
pub proof fn lemma_renewal_keeps_epoch(
    held: MutationLease,
    changeset_id: u128,
    now_unix_ms: i64,
    ttl: Duration,
)
    requires
        held.changeset_id == changeset_id,
        now_unix_ms < held.expires_at_unix_ms,
        ttl_valid(ttl, now_unix_ms),
    ensures
        lease_acquisition(Some(held), changeset_id, held.run_id, now_unix_ms, ttl)
            == Ok::<MutationLease, PersistenceError>(MutationLease {
                expires_at_unix_ms: (now_unix_ms + ttl.total_millis()) as i64,
                ..held
            }),
{
}

} // verus!
