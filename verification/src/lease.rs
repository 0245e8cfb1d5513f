//! The checkpoint lease manager: when a lease is live, how long it still
//! runs, and what an acquisition attempt is answered with.

use vstd::prelude::*;
use crate::error::WorkflowError;
use crate::fencing::{check_fencing_token, fencing_verdict};
use crate::helpers::return_error_if_true;
use crate::schema::{optional_view, CheckpointValue, CheckpointValueView, LeasedCheckpointValue};
use crate::text::{append_decimal, decimal};

verus! {

/// The nearest `i64` to an integer.
pub open spec fn clamp_i64(x: int) -> i64 {
    if x > i64::MAX {
        i64::MAX
    } else if x < i64::MIN {
        i64::MIN
    } else {
        x as i64
    }
}

/// The instant at which a lease ends.
pub open spec fn lease_expiry(lease: LeasedCheckpointValue) -> int {
    lease.created_at + lease.lease_timeout
}

/// A lease is live up to and including the instant at which it ends. A row
/// that is past that instant is void, though it may still be stored.
pub open spec fn lease_is_live(lease: LeasedCheckpointValue, now: i64) -> bool {
    now <= lease_expiry(lease)
}

/// The time for which a lease still runs at `now`, in milliseconds: its
/// expiry less `now`, each step held within the range of `i64`.
pub open spec fn remaining_lease_time(lease: LeasedCheckpointValue, now: i64) -> i64 {
    clamp_i64(clamp_i64(lease_expiry(lease)) - now)
}

fn saturating_sum(a: i64, b: i64) -> (sum: i64)
    ensures
        sum == clamp_i64(a + b),
{
    match a.checked_add(b) {
        Some(s) => s,
        None => if b > 0 {
            i64::MAX
        } else {
            i64::MIN
        },
    }
}

fn saturating_difference(a: i64, b: i64) -> (difference: i64)
    ensures
        difference == clamp_i64(a - b),
{
    match a.checked_sub(b) {
        Some(d) => d,
        None => if b > 0 {
            i64::MIN
        } else {
            i64::MAX
        },
    }
}

/// Computes the time for which `lease` still runs at `now`.
pub fn remaining_lease_timeout(lease: &LeasedCheckpointValue, now: i64) -> (remaining: i64)
    ensures
        remaining == remaining_lease_time(*lease, now),
{
    saturating_difference(saturating_sum(lease.created_at, lease.lease_timeout), now)
}

/// Decides whether `lease` is live at `now`.
pub fn is_lease_live(lease: &LeasedCheckpointValue, now: i64) -> (live: bool)
    ensures
        live == lease_is_live(*lease, now),
{
    match lease.created_at.checked_add(lease.lease_timeout) {
        Some(expiry) => now <= expiry,
        None => lease.lease_timeout > 0,
    }
}

/// Where neither the expiry nor the difference leaves the range of `i64`,
/// the remaining time is exactly the expiry less `now`; and a live lease
/// never has a negative remaining time.
pub proof fn lemma_remaining_lease_time(lease: LeasedCheckpointValue, now: i64)
    ensures
        i64::MIN <= lease_expiry(lease) <= i64::MAX && i64::MIN <= lease_expiry(lease) - now
            <= i64::MAX ==> remaining_lease_time(lease, now) == lease_expiry(lease) - now,
        lease_is_live(lease, now) ==> remaining_lease_time(lease, now) >= 0,
        remaining_lease_time(lease, now) > 0 ==> lease_is_live(lease, now),
{
}

/// The answer to a caller that asks for a step which may already be
/// committed: the committed value where the caller's inputs are those that
/// were committed, a failure where they differ, and nothing where the step
/// is not committed yet.
pub open spec fn replay_verdict(
    committed: Option<CheckpointValueView>,
    idempotency_checksum: i64,
) -> Result<Option<Seq<u8>>, WorkflowError> {
    match committed {
        None => Ok(None),
        Some(checkpoint) => if checkpoint.idempotency_checksum != idempotency_checksum {
            Err(
                WorkflowError::NonDeterministicCheckpoint {
                    position_checksum: checkpoint.position_checksum,
                    stored: checkpoint.idempotency_checksum,
                    provided: idempotency_checksum,
                },
            )
        } else {
            Ok(Some(checkpoint.value))
        },
    }
}

/// Looks at the committed checkpoint of a step, if there is one, before any
/// lease is considered.
pub fn replay_checkpoint(committed: Option<CheckpointValue>, idempotency_checksum: i64) -> (verdict:
    Result<Option<Vec<u8>>, WorkflowError>)
    ensures
        match replay_verdict(optional_view(committed), idempotency_checksum) {
            Ok(None) => verdict == Ok::<Option<Vec<u8>>, WorkflowError>(None),
            Ok(Some(value)) => verdict matches Ok(Some(v)) && v@ == value,
            Err(e) => verdict == Err::<Option<Vec<u8>>, WorkflowError>(e),
        },
{
    match committed {
        None => Ok(None),
        Some(checkpoint) => {
            return_error_if_true(
                checkpoint.idempotency_checksum != idempotency_checksum,
                WorkflowError::NonDeterministicCheckpoint {
                    position_checksum: checkpoint.position_checksum,
                    stored: checkpoint.idempotency_checksum,
                    provided: idempotency_checksum,
                },
            )?;
            Ok(Some(checkpoint.value))
        },
    }
}

/// Whether a lease was read and is live at `now`.
pub open spec fn holds_live_lease(current: Option<LeasedCheckpointValue>, now: i64) -> bool {
    match current {
        Some(lease) => lease_is_live(lease, now),
        None => false,
    }
}

/// What an acquisition attempt on an uncommitted step is answered with.
#[derive(Debug, Clone, Copy, PartialEq, Eq, Structural)]
pub enum LeaseDecision {
    /// Another attempt holds the step for this many more milliseconds.
    Busy(i64),
    /// The caller gets the step; this lease is to be stored for it.
    Acquire(LeasedCheckpointValue),
}

/// The decision on an acquisition attempt for an uncommitted step, from the
/// lease and the epoch read together.
///
/// A live lease makes the step busy, whoever asks. Otherwise the caller's
/// epoch is judged; only the holder of exactly the recorded epoch acquires,
/// with a lease that starts at `now`. An epoch ahead of the record is a
/// broken invariant.
pub open spec fn lease_verdict(
    current: Option<LeasedCheckpointValue>,
    stored_token: Option<i64>,
    fencing_token: i64,
    lease_timeout: i64,
    now: i64,
) -> Result<LeaseDecision, WorkflowError> {
    if holds_live_lease(current, now) {
        Ok(LeaseDecision::Busy(remaining_lease_time(current->0, now)))
    } else {
        match fencing_verdict(stored_token, fencing_token) {
            Err(e) => Err(e),
            Ok(stored) => if fencing_token == stored {
                Ok(LeaseDecision::Acquire(LeasedCheckpointValue { lease_timeout, created_at: now }))
            } else {
                Err(WorkflowError::UnexpectedState { stored, provided: fencing_token })
            },
        }
    }
}

/// Decides an acquisition attempt for an uncommitted step.
pub fn decide_lease(
    current: Option<LeasedCheckpointValue>,
    stored_token: Option<i64>,
    fencing_token: i64,
    lease_timeout: i64,
    now: i64,
) -> (verdict: Result<LeaseDecision, WorkflowError>)
    ensures
        verdict == lease_verdict(current, stored_token, fencing_token, lease_timeout, now),
{
    if let Some(lease) = current {
        if is_lease_live(&lease, now) {
            return Ok(LeaseDecision::Busy(remaining_lease_timeout(&lease, now)));
        }
    }
    let stored: i64 = check_fencing_token(stored_token, fencing_token)?;
    if fencing_token == stored {
        return Ok(LeaseDecision::Acquire(LeasedCheckpointValue { lease_timeout, created_at: now }));
    }
    Err(WorkflowError::UnexpectedState { stored, provided: fencing_token })
}

/// The shortest time, in seconds, for which a lease entry is kept in a
/// cache that expires its entries.
pub const MINIMUM_CACHE_TTL: i64 = 30;

/// The whole seconds that cover a time in milliseconds: the time divided by
/// 1000 and rounded up; none for a time that is not positive.
pub open spec fn covering_seconds(milliseconds: i64) -> int {
    if milliseconds <= 0 {
        0
    } else {
        (milliseconds + 999) / 1000
    }
}

/// The time, in seconds, for which a cache keeps a lease entry: the whole
/// seconds that cover the lease's timeout, but never less than
/// [`MINIMUM_CACHE_TTL`]. An entry must not leave the cache before its
/// lease ends, so the timeout is rounded up.
pub open spec fn cache_ttl(lease_timeout: i64) -> int {
    if covering_seconds(lease_timeout) >= MINIMUM_CACHE_TTL {
        covering_seconds(lease_timeout)
    } else {
        MINIMUM_CACHE_TTL as int
    }
}

/// Computes the time, in seconds, for which a cache keeps a lease entry:
/// the least number of whole seconds, from [`MINIMUM_CACHE_TTL`] on, that
/// is no shorter than the lease.
pub fn lease_cache_ttl(lease_timeout: i64) -> (seconds: i64)
    ensures
        seconds == cache_ttl(lease_timeout),
        seconds >= MINIMUM_CACHE_TTL,
        seconds * 1000 >= lease_timeout,
        seconds > MINIMUM_CACHE_TTL ==> (seconds - 1) * 1000 < lease_timeout,
{
    if lease_timeout > 30_000 {
        let whole: i64 = lease_timeout / 1000;
        if lease_timeout % 1000 > 0 {
            whole + 1
        } else {
            whole
        }
    } else {
        MINIMUM_CACHE_TTL
    }
}

/// The key under which a cache holds the lease of a step: the workflow id,
/// a colon, and the position in decimal.
pub open spec fn leased_checkpoint_key(workflow_id: Seq<char>, position: i64) -> Seq<char> {
    workflow_id + seq![':'] + decimal(position as int)
}

/// Builds the key under which a cache holds the lease of a step.
pub fn generate_leased_checkpoint_key(workflow_id: &str, position: i64) -> (key: String)
    ensures
        key@ == leased_checkpoint_key(workflow_id@, position),
{
    proof {
        reveal_strlit(":");
    }
    let mut key = String::from_str(workflow_id);
    key.append(":");
    assert(key@ =~= workflow_id@ + seq![':']);
    append_decimal(&mut key, position);
    key
}

} // verus!
