//! The checkpoint service: committing the result of a step, leasing a step
//! and releasing it, each served at the instant the clock shows.

use vstd::prelude::*;
use crate::clock::now_millis;
use crate::error::WorkflowError;
use crate::lease::{remaining_lease_time, remaining_lease_timeout};
use crate::model::{LeaseOutcome, StoreView};
use crate::schema::LeasedCheckpointValue;
use crate::store::MemoryStore;

verus! {

/// A request to commit the result of a step.
#[derive(Debug, Clone, PartialEq, Eq)]
pub struct CheckpointInput {
    pub workflow_id: String,
    pub fencing_token: i64,
    pub position_checksum: i64,
    pub value: Vec<u8>,
    pub idempotency_checksum: i64,
}

/// The answer to a commit: whether the caller should abort because a newer
/// epoch has taken over.
#[derive(Debug, Clone, Copy, PartialEq, Eq, Structural)]
pub struct CheckpointOutput {
    pub abort: bool,
}

/// A request for the exclusive right to execute a step.
#[derive(Debug, Clone, PartialEq, Eq)]
pub struct LeaseCheckpointInput {
    pub workflow_id: String,
    pub fencing_token: i64,
    pub position_checksum: i64,
    pub lease_timeout: i64,
    pub idempotency_checksum: i64,
}

/// What a lease request is answered with when the step is not granted.
#[derive(Debug, Clone, PartialEq, Eq)]
pub enum LeaseCheckpointReturnType {
    /// The step is committed: this is its value.
    CheckpointValue(Vec<u8>),
    /// The step is held by another attempt for this many more milliseconds.
    RemainingLeaseTimeout(i64),
}

/// The answer to a lease request; no response means that the lease was
/// acquired.
#[derive(Debug, Clone, PartialEq, Eq)]
pub struct LeaseCheckpointOutput {
    pub response: Option<LeaseCheckpointReturnType>,
}

impl LeaseCheckpointOutput {
    /// The outcome that this answer stands for.
    pub open spec fn outcome(&self) -> LeaseOutcome {
        match self.response {
            None => LeaseOutcome::Acquired,
            Some(LeaseCheckpointReturnType::CheckpointValue(value)) => LeaseOutcome::AlreadyComputed(
                value@,
            ),
            Some(LeaseCheckpointReturnType::RemainingLeaseTimeout(remaining)) => LeaseOutcome::Busy(
                remaining,
            ),
        }
    }
}

/// The time for which a lease still runs at the instant the clock shows, in
/// milliseconds.
pub fn diff_lease_expiry_from_now(leased_checkpoint: &LeasedCheckpointValue) -> (remaining: i64)
    ensures
        exists|now: i64| remaining == #[trigger] remaining_lease_time(*leased_checkpoint, now),
{
    let now: i64 = now_millis();
    remaining_lease_timeout(leased_checkpoint, now)
}

/// Whether `committed` and `after` are the answer and the state that a
/// commit of `data`, served at `now` in the state `before`, leads to.
pub open spec fn checkpoint_served(
    before: StoreView,
    data: CheckpointInput,
    now: i64,
    after: StoreView,
    committed: Result<CheckpointOutput, WorkflowError>,
) -> bool {
    &&& after == before.commit(
        data.workflow_id@,
        data.fencing_token,
        data.position_checksum,
        data.idempotency_checksum,
        data.value@,
        now,
    )
    &&& match before.commit_result(
        data.workflow_id@,
        data.fencing_token,
        data.position_checksum,
        data.idempotency_checksum,
        now,
    ) {
        Ok(abort) => committed == Ok::<CheckpointOutput, WorkflowError>(CheckpointOutput { abort }),
        Err(e) => committed == Err::<CheckpointOutput, WorkflowError>(e),
    }
}

/// Commits the result of a step at the instant the clock shows.
pub fn handle_checkpoint(store: &mut MemoryStore, data: CheckpointInput) -> (committed: Result<
    CheckpointOutput,
    WorkflowError,
>)
    ensures
        exists|now: i64| #[trigger]
            checkpoint_served(old(store)@, data, now, final(store)@, committed),
{
    let now: i64 = now_millis();
    let ghost before = store@;
    let committed = store.commit(data, now);
    assert(checkpoint_served(before, data, now, store@, committed));
    committed
}

/// Whether `leased` and `after` are the answer and the state that a lease
/// request `data`, served at `now` in the state `before`, leads to.
pub open spec fn lease_checkpoint_served(
    before: StoreView,
    data: LeaseCheckpointInput,
    now: i64,
    after: StoreView,
    leased: Result<LeaseCheckpointOutput, WorkflowError>,
) -> bool {
    &&& after == before.try_lease(
        data.workflow_id@,
        data.fencing_token,
        data.position_checksum,
        data.lease_timeout,
        data.idempotency_checksum,
        now,
    )
    &&& match before.try_lease_result(
        data.workflow_id@,
        data.fencing_token,
        data.position_checksum,
        data.lease_timeout,
        data.idempotency_checksum,
        now,
    ) {
        Ok(outcome) => leased matches Ok(output) && output.outcome() == outcome,
        Err(e) => leased matches Err(failure) && failure == e,
    }
}

/// Asks for the exclusive right to execute a step at the instant the clock
/// shows.
pub fn handle_lease_checkpoint(store: &mut MemoryStore, data: LeaseCheckpointInput) -> (leased:
    Result<LeaseCheckpointOutput, WorkflowError>)
    ensures
        exists|now: i64| #[trigger]
            lease_checkpoint_served(old(store)@, data, now, final(store)@, leased),
{
    let now: i64 = now_millis();
    let ghost before = store@;
    let leased = store.try_lease(data, now);
    assert(lease_checkpoint_served(before, data, now, store@, leased));
    leased
}

/// Gives up the lease of a step, whether or not there is one.
pub fn release_checkpoint(store: &mut MemoryStore, workflow_id: &str, position_checksum: i64)
    ensures
        final(store)@ == old(store)@.release(workflow_id@, position_checksum),
{
    store.release(workflow_id, position_checksum);
}

} // verus!
