//! The workflow service: starting a workflow, completing it and retiring
//! what has expired, each served at the instant the clock shows.

use vstd::prelude::*;
use crate::clock::now_millis;
use crate::error::WorkflowError;
use crate::ledger::views;
use crate::lifecycle::{expiry_fits, judge_finish};
use crate::model::StoreView;
use crate::schema::{CheckpointValue, Workflow, WorkflowStatus};
use crate::store::MemoryStore;

verus! {

/// A request to start driving a workflow.
#[derive(Debug, Clone, PartialEq, Eq)]
pub struct CreateWorkflowInput {
    pub workflow_id: String,
    /// A nested start runs inside the epoch of its parent.
    pub is_nested: bool,
    /// Whether the answer should carry the committed steps for replay.
    pub prefetch_checkpoints: bool,
}

/// The answer to a start.
#[derive(Debug, Clone, PartialEq, Eq)]
pub struct CreateWorkflowOutput {
    pub fencing_token: i64,
    pub checkpoints: Option<Vec<CheckpointValue>>,
}

/// A request to complete a workflow and keep it for `expire_after`
/// milliseconds.
#[derive(Debug, Clone, PartialEq, Eq)]
pub struct FinishWorkflowInput {
    pub workflow_id: String,
    pub fencing_token: i64,
    pub expire_after: i64,
}

/// The answer to a completion.
#[derive(Debug, Clone, Copy, PartialEq, Eq, Structural)]
pub struct FinishWorkflowOutput {}

/// Whether `started` and `after` are the answer and the state that a start
/// `data`, served at `now` in the state `before`, leads to.
///
/// Where the next epoch is not representable the request is not served:
/// there is no answer and the state stays as it is.
pub open spec fn workflow_started(
    before: StoreView,
    data: CreateWorkflowInput,
    now: i64,
    after: StoreView,
    started: Option<Result<CreateWorkflowOutput, WorkflowError>>,
) -> bool {
    if before.grant_fits(data.workflow_id@, data.is_nested) {
        &&& after == before.start(data.workflow_id@, data.is_nested, now)
        &&& match before.start_result(data.workflow_id@, data.is_nested) {
            Ok(token) => {
                &&& started matches Some(Ok(output))
                &&& output.fencing_token == token
                &&& output.checkpoints is Some <==> data.prefetch_checkpoints
                &&& output.checkpoints matches Some(listing) ==> before.is_listing(
                    data.workflow_id@,
                    views(listing@),
                )
            },
            Err(e) => started matches Some(Err(failure)) && failure == e,
        }
    } else {
        &&& after == before
        &&& started is None
    }
}

/// Starts driving a workflow at the instant the clock shows; `None` where
/// the workflow has used up its epochs.
pub fn create_workflow(store: &mut MemoryStore, data: CreateWorkflowInput) -> (started: Option<
    Result<CreateWorkflowOutput, WorkflowError>,
>)
    ensures
        exists|now: i64| #[trigger] workflow_started(old(store)@, data, now, final(store)@, started),
{
    let ghost before = store@;
    if !data.is_nested && store.lookup(data.workflow_id.as_str()) == Some(i64::MAX) {
        assert(workflow_started(before, data, 0, store@, None));
        return None;
    }
    let now: i64 = now_millis();
    let started = Some(store.start(data, now));
    assert(workflow_started(before, data, now, store@, started));
    started
}

/// Whether `finished` and `after` are the answer and the state that the
/// completion of a running workflow, asked for by `data` and served at
/// `now` in the state `before`, leads to.
///
/// Where the expiry `now + data.expire_after` is not representable the
/// request is not served: there is no answer and the state stays as it is.
pub open spec fn workflow_finished(
    before: StoreView,
    data: FinishWorkflowInput,
    now: i64,
    after: StoreView,
    finished: Option<Result<FinishWorkflowOutput, WorkflowError>>,
) -> bool {
    if expiry_fits(data.expire_after, now) {
        &&& after == before.finish(data.workflow_id@, data.fencing_token, data.expire_after, now)
        &&& finished == Some(Ok::<FinishWorkflowOutput, WorkflowError>(FinishWorkflowOutput {  }))
    } else {
        &&& after == before
        &&& finished is None
    }
}

/// Completes a workflow.
///
/// The caller is judged first, from the state alone: a workflow without an
/// epoch or a row is not found, a stale caller is refused, and a completed
/// workflow is left as it is with success; none of these reads the clock or
/// changes the state. A running workflow is completed at the instant the
/// clock shows; only there the answer is `None` where the expiry asked for
/// is not representable at that instant.
pub fn finish_workflow(store: &mut MemoryStore, data: FinishWorkflowInput) -> (finished: Option<
    Result<FinishWorkflowOutput, WorkflowError>,
>)
    ensures
        match old(store)@.judged_status(data.workflow_id@, data.fencing_token) {
            Err(e) => {
                &&& finished == Some(Err::<FinishWorkflowOutput, WorkflowError>(e))
                &&& final(store)@ == old(store)@
            },
            Ok(WorkflowStatus::Completed) => {
                &&& finished == Some(
                    Ok::<FinishWorkflowOutput, WorkflowError>(FinishWorkflowOutput {  }),
                )
                &&& final(store)@ == old(store)@
            },
            Ok(WorkflowStatus::Running) => exists|now: i64| #[trigger]
                workflow_finished(old(store)@, data, now, final(store)@, finished),
        },
{
    let ghost before = store@;
    let stored = store.lookup(data.workflow_id.as_str());
    let status = match store.status(data.workflow_id.as_str()) {
        Some(workflow) => Some(workflow.status),
        None => None,
    };
    match judge_finish(stored, status, data.fencing_token) {
        Err(e) => Some(Err(e)),
        Ok(WorkflowStatus::Completed) => Some(Ok(FinishWorkflowOutput {  })),
        Ok(WorkflowStatus::Running) => {
            let now: i64 = now_millis();
            if now.checked_add(data.expire_after).is_none() {
                assert(workflow_finished(before, data, now, store@, None));
                return None;
            }
            let finished = Some(store.finish(data, now));
            assert(workflow_finished(before, data, now, store@, finished));
            finished
        },
    }
}

/// The row of a workflow, for a caller to whom a workflow without a row is
/// a failure.
pub fn workflow_status(store: &MemoryStore, workflow_id: &str) -> (status: Result<
    Workflow,
    WorkflowError,
>)
    ensures
        match store@.workflow(workflow_id@) {
            Some(record) => status matches Ok(workflow) && workflow.id@ == workflow_id@
                && workflow.record() == record,
            None => status matches Err(failure) && failure == WorkflowError::WorkflowNotFound,
        },
{
    match store.status(workflow_id) {
        Some(workflow) => Ok(workflow),
        None => Err(WorkflowError::WorkflowNotFound),
    }
}

/// Runs the cleanup at the instant the clock shows: on the leader it
/// retires what has expired, elsewhere it does nothing.
pub fn handle_workflow_cleanup(store: &mut MemoryStore, is_leader: bool)
    ensures
        exists|now: i64| final(store)@ == #[trigger] old(store)@.cleanup(is_leader, now),
{
    if !is_leader {
        assert(store@ == store@.cleanup(false, 0));
        return ;
    }
    let now: i64 = now_millis();
    store.cleanup(true, now);
}

} // verus!
