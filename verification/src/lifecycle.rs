//! The workflow lifecycle: the completion transition and the rule by which
//! completed workflows are retired.

use vstd::prelude::*;
use crate::error::WorkflowError;
use crate::fencing::is_stale;
use crate::helpers::return_error_if_true;
use crate::schema::{Workflow, WorkflowRecord, WorkflowStatus};

verus! {

/// The record of a workflow that is seen for the first time at `now`.
pub open spec fn fresh_record(now: i64) -> WorkflowRecord {
    WorkflowRecord {
        status: WorkflowStatus::Running,
        expire_at: None,
        completed_at: None,
        created_at: now,
    }
}

/// The record of a workflow after it completed at `now`, to be kept for
/// `expire_after` more milliseconds.
pub open spec fn completed_record(record: WorkflowRecord, expire_after: i64, now: i64) -> WorkflowRecord {
    WorkflowRecord {
        status: WorkflowStatus::Completed,
        expire_at: Some((now + expire_after) as i64),
        completed_at: Some(now),
        created_at: record.created_at,
    }
}

/// What a completion request does to the workflow.
#[derive(Debug, Clone, Copy, PartialEq, Eq, Structural)]
pub enum FinishDecision {
    /// The workflow is running: it completes now and expires at `expire_at`.
    Complete { completed_at: i64, expire_at: i64 },
    /// The workflow has completed before: nothing changes.
    AlreadyCompleted,
}

/// The judgement on who asks for a completion, from the recorded epoch and
/// the status of the workflow alone: the status of the workflow where the
/// request is accepted, a failure otherwise.
///
/// A workflow without an epoch is not found; a stale caller is refused; a
/// workflow without a row is not found.
pub open spec fn judged_status(
    stored_token: Option<i64>,
    status: Option<WorkflowStatus>,
    fencing_token: i64,
) -> Result<WorkflowStatus, WorkflowError> {
    match stored_token {
        None => Err(WorkflowError::WorkflowNotFound),
        Some(stored) => if is_stale(stored, fencing_token) {
            Err(WorkflowError::FencingTokenExpired { stored, provided: fencing_token })
        } else {
            match status {
                None => Err(WorkflowError::WorkflowNotFound),
                Some(found) => Ok(found),
            }
        },
    }
}

/// Judges who asks for a completion, before any clock is read.
pub fn judge_finish(
    stored_token: Option<i64>,
    status: Option<WorkflowStatus>,
    fencing_token: i64,
) -> (verdict: Result<WorkflowStatus, WorkflowError>)
    ensures
        verdict == judged_status(stored_token, status, fencing_token),
{
    return_error_if_true(stored_token.is_none(), WorkflowError::WorkflowNotFound)?;
    let stored: i64 = stored_token.unwrap();
    return_error_if_true(
        stored > fencing_token,
        WorkflowError::FencingTokenExpired { stored, provided: fencing_token },
    )?;
    match status {
        None => Err(WorkflowError::WorkflowNotFound),
        Some(found) => Ok(found),
    }
}

/// The decision on a completion request: an accepted request completes a
/// running workflow at `now`, to expire `expire_after` milliseconds later,
/// and leaves a completed one as it is. Only the completion of a running
/// workflow depends on the instant and on the expiry.
pub open spec fn finish_verdict(
    stored_token: Option<i64>,
    status: Option<WorkflowStatus>,
    fencing_token: i64,
    expire_after: i64,
    now: i64,
) -> Result<FinishDecision, WorkflowError> {
    match judged_status(stored_token, status, fencing_token) {
        Err(e) => Err(e),
        Ok(WorkflowStatus::Completed) => Ok(FinishDecision::AlreadyCompleted),
        Ok(WorkflowStatus::Running) => Ok(
            FinishDecision::Complete { completed_at: now, expire_at: (now + expire_after) as i64 },
        ),
    }
}

/// Whether the expiry of a completion at `now` is representable.
pub open spec fn expiry_fits(expire_after: i64, now: i64) -> bool {
    i64::MIN <= now + expire_after <= i64::MAX
}

/// Whether a completion request can be decided at `now`: where it completes
/// a running workflow, the expiry must be representable. A request that is
/// refused, or that finds the workflow completed, computes no expiry.
pub open spec fn finish_fits(
    stored_token: Option<i64>,
    status: Option<WorkflowStatus>,
    fencing_token: i64,
    expire_after: i64,
    now: i64,
) -> bool {
    judged_status(stored_token, status, fencing_token) == Ok::<WorkflowStatus, WorkflowError>(
        WorkflowStatus::Running,
    ) ==> expiry_fits(expire_after, now)
}

/// Decides a completion request: the caller is judged first, and the expiry
/// is computed only where a running workflow is completed.
pub fn decide_finish(
    stored_token: Option<i64>,
    status: Option<WorkflowStatus>,
    fencing_token: i64,
    expire_after: i64,
    now: i64,
) -> (verdict: Result<FinishDecision, WorkflowError>)
    requires
        finish_fits(stored_token, status, fencing_token, expire_after, now),
    ensures
        verdict == finish_verdict(stored_token, status, fencing_token, expire_after, now),
{
    match judge_finish(stored_token, status, fencing_token)? {
        WorkflowStatus::Completed => Ok(FinishDecision::AlreadyCompleted),
        WorkflowStatus::Running => Ok(
            FinishDecision::Complete { completed_at: now, expire_at: now + expire_after },
        ),
    }
}

/// A workflow is retired once it has completed and its expiry lies strictly
/// in the past. A running workflow is never retired, whatever its age.
pub open spec fn is_expired(record: WorkflowRecord, now: i64) -> bool {
    &&& record.status == WorkflowStatus::Completed
    &&& record.expire_at matches Some(expire_at)
    &&& expire_at < now
}

/// Decides whether a workflow is to be retired at `now`.
pub fn workflow_is_expired(workflow: &Workflow, now: i64) -> (expired: bool)
    ensures
        expired == is_expired(workflow.record(), now),
{
    match workflow.status {
        WorkflowStatus::Running => false,
        WorkflowStatus::Completed => match workflow.expire_at {
            Some(expire_at) => expire_at < now,
            None => false,
        },
    }
}

/// The workflows that a cleanup at `now` leaves in place.
pub open spec fn survives(workflows: Map<Seq<char>, WorkflowRecord>, now: i64) -> spec_fn(
    Seq<char>,
) -> bool {
    |id: Seq<char>| !(workflows.contains_key(id) && is_expired(workflows[id], now))
}

/// The steps that a cleanup at `now` leaves in place: those of the workflows
/// that it leaves in place.
pub open spec fn step_survives(workflows: Map<Seq<char>, WorkflowRecord>, now: i64) -> spec_fn(
    (Seq<char>, i64),
) -> bool {
    |key: (Seq<char>, i64)| !(workflows.contains_key(key.0) && is_expired(workflows[key.0], now))
}

} // verus!
