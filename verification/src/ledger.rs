//! The checkpoint ledger: how a commit is fenced and what it writes.

use vstd::prelude::*;
use crate::error::WorkflowError;
use crate::fencing::is_stale;
use crate::helpers::return_error_if_true;
use crate::lease::{holds_live_lease, is_lease_live};
use crate::schema::{CheckpointRecord, CheckpointValue, CheckpointValueView, LeasedCheckpointValue};

verus! {

/// How a commit is fenced, from the recorded epoch and the lease that the
/// commit consumed.
///
/// Without a recorded epoch the commit fails. A stale caller is refused
/// while the consumed lease is still live. Once the lease has run out, or
/// where there was none, the result is kept and the caller is told to abort
/// exactly when it is stale.
pub open spec fn commit_verdict(
    stored_token: Option<i64>,
    consumed: Option<LeasedCheckpointValue>,
    fencing_token: i64,
    now: i64,
) -> Result<bool, WorkflowError> {
    match stored_token {
        None => Err(WorkflowError::FencingTokenNotFound),
        Some(stored) => if holds_live_lease(consumed, now) && is_stale(stored, fencing_token) {
            Err(WorkflowError::FencingTokenExpired { stored, provided: fencing_token })
        } else {
            Ok(is_stale(stored, fencing_token))
        },
    }
}

/// Fences a commit; the `bool` of a success is the abort flag.
pub fn fence_commit(
    stored_token: Option<i64>,
    consumed: Option<LeasedCheckpointValue>,
    fencing_token: i64,
    now: i64,
) -> (verdict: Result<bool, WorkflowError>)
    ensures
        verdict == commit_verdict(stored_token, consumed, fencing_token, now),
{
    return_error_if_true(stored_token.is_none(), WorkflowError::FencingTokenNotFound)?;
    let stored: i64 = stored_token.unwrap();
    let is_fencing_token_expired: bool = stored > fencing_token;
    if let Some(lease) = consumed {
        if is_lease_live(&lease, now) {
            return_error_if_true(
                is_fencing_token_expired,
                WorkflowError::FencingTokenExpired { stored, provided: fencing_token },
            )?;
        }
    }
    Ok(is_fencing_token_expired)
}

/// What a fenced commit does to the ledger.
#[derive(Debug, Clone, Copy, PartialEq, Eq, Structural)]
pub enum WriteDecision {
    /// No row exists for the step: the result is written.
    Insert,
    /// The same result is already recorded: nothing is written.
    Keep,
}

/// What a fenced commit writes, from the idempotency checksum recorded for
/// the step, if any: a first commit inserts, a repeated one changes nothing,
/// and one that disagrees with the record fails and leaves it untouched.
pub open spec fn write_verdict(
    position_checksum: i64,
    recorded: Option<i64>,
    idempotency_checksum: i64,
) -> Result<WriteDecision, WorkflowError> {
    match recorded {
        None => Ok(WriteDecision::Insert),
        Some(stored) => if stored == idempotency_checksum {
            Ok(WriteDecision::Keep)
        } else {
            Err(
                WorkflowError::NonDeterministicCheckpoint {
                    position_checksum,
                    stored,
                    provided: idempotency_checksum,
                },
            )
        },
    }
}

/// Decides what a fenced commit writes.
pub fn decide_write(position_checksum: i64, recorded: Option<i64>, idempotency_checksum: i64) -> (verdict:
    Result<WriteDecision, WorkflowError>)
    ensures
        verdict == write_verdict(position_checksum, recorded, idempotency_checksum),
{
    match recorded {
        None => Ok(WriteDecision::Insert),
        Some(stored) => {
            return_error_if_true(
                stored != idempotency_checksum,
                WorkflowError::NonDeterministicCheckpoint {
                    position_checksum,
                    stored,
                    provided: idempotency_checksum,
                },
            )?;
            Ok(WriteDecision::Keep)
        },
    }
}

/// The views of the checkpoints of a list, in order.
pub open spec fn views(listing: Seq<CheckpointValue>) -> Seq<CheckpointValueView> {
    Seq::new(listing.len(), |i: int| listing[i]@)
}

/// Whether `listing` is the replay list of the workflow `id`: its committed
/// steps, each once, by ascending position.
pub open spec fn is_listing(
    checkpoints: Map<(Seq<char>, i64), CheckpointRecord>,
    id: Seq<char>,
    listing: Seq<CheckpointValueView>,
) -> bool {
    &&& forall|i: int, j: int|
        0 <= i < j < listing.len() ==> listing[i].position_checksum < listing[j].position_checksum
    &&& forall|i: int|
        0 <= i < listing.len() ==> {
            &&& checkpoints.contains_key((id, #[trigger] listing[i].position_checksum))
            &&& listing[i].idempotency_checksum == checkpoints[(
                id,
                listing[i].position_checksum,
            )].idempotency_checksum
            &&& listing[i].value == checkpoints[(id, listing[i].position_checksum)].value
        }
    &&& forall|position: i64| #[trigger]
        checkpoints.contains_key((id, position)) ==> exists|i: int|
            0 <= i < listing.len() && #[trigger] listing[i].position_checksum == position
}

/// A workflow has one replay list.
pub proof fn lemma_listing_unique(
    checkpoints: Map<(Seq<char>, i64), CheckpointRecord>,
    id: Seq<char>,
    first: Seq<CheckpointValueView>,
    second: Seq<CheckpointValueView>,
)
    requires
        is_listing(checkpoints, id, first),
        is_listing(checkpoints, id, second),
    ensures
        first == second,
    decreases first.len(),
{
    if first.len() == 0 {
        if second.len() > 0 {
            let p = second[0].position_checksum;
            assert(checkpoints.contains_key((id, p)));
            let i = choose|i: int| 0 <= i < first.len() && #[trigger] first[i].position_checksum == p;
        }
        assert(first =~= second);
    } else {
        let p = first.last().position_checksum;
        assert(checkpoints.contains_key((id, p)));
        let k = choose|k: int| 0 <= k < second.len() && #[trigger] second[k].position_checksum == p;
        if k < second.len() - 1 {
            let q = second.last().position_checksum;
            assert(checkpoints.contains_key((id, q)));
            let m = choose|m: int| 0 <= m < first.len() && #[trigger] first[m].position_checksum == q;
            assert(q > p);
            assert(m < first.len() - 1 ==> first[m].position_checksum < p);
        }
        assert(k == second.len() - 1);
        let rest = checkpoints.remove((id, p));
        let first_rest = first.drop_last();
        let second_rest = second.drop_last();
        assert(is_listing(rest, id, first_rest)) by {
            assert forall|position: i64| #[trigger]
                rest.contains_key((id, position)) implies exists|i: int|
                0 <= i < first_rest.len() && #[trigger] first_rest[i].position_checksum
                    == position by {
                assert(checkpoints.contains_key((id, position)));
                let i = choose|i: int|
                    0 <= i < first.len() && #[trigger] first[i].position_checksum == position;
                assert(first_rest[i].position_checksum == position);
            }
        }
        assert(is_listing(rest, id, second_rest)) by {
            assert forall|position: i64| #[trigger]
                rest.contains_key((id, position)) implies exists|i: int|
                0 <= i < second_rest.len() && #[trigger] second_rest[i].position_checksum
                    == position by {
                assert(checkpoints.contains_key((id, position)));
                let i = choose|i: int|
                    0 <= i < second.len() && #[trigger] second[i].position_checksum == position;
                assert(second_rest[i].position_checksum == position);
            }
        }
        lemma_listing_unique(rest, id, first_rest, second_rest);
        assert(first.last() == second.last());
        assert(first =~= first_rest.push(first.last()));
        assert(second =~= second_rest.push(second.last()));
    }
}

} // verus!
