use workflow_coordinator::error::WorkflowError;
use workflow_coordinator::lifecycle::{
    decide_finish, judge_finish, workflow_is_expired, FinishDecision,
};
use workflow_coordinator::schema::{Workflow, WorkflowStatus};

fn workflow(status: WorkflowStatus, expire_at: Option<i64>) -> Workflow {
    Workflow {
        id: String::from("wf"),
        status,
        expire_at,
        completed_at: expire_at.map(|_| 10),
        created_at: 1,
    }
}

#[test]
fn finishing_without_a_token_is_not_found() {
    assert_eq!(
        decide_finish(None, Some(WorkflowStatus::Running), 1, 3_600_000, 1_000),
        Err(WorkflowError::WorkflowNotFound)
    );
}

#[test]
fn finishing_without_a_workflow_is_not_found() {
    assert_eq!(decide_finish(Some(1), None, 1, 3_600_000, 1_000), Err(WorkflowError::WorkflowNotFound));
}

#[test]
fn finishing_with_a_stale_token_is_refused() {
    assert_eq!(
        decide_finish(Some(2), Some(WorkflowStatus::Running), 1, 3_600_000, 1_000),
        Err(WorkflowError::FencingTokenExpired { stored: 2, provided: 1 })
    );
    assert_eq!(
        decide_finish(Some(2), None, 1, 3_600_000, 1_000),
        Err(WorkflowError::FencingTokenExpired { stored: 2, provided: 1 })
    );
}

#[test]
fn finishing_a_running_workflow_completes_it() {
    assert_eq!(
        decide_finish(Some(2), Some(WorkflowStatus::Running), 2, 3_600_000, 1_000),
        Ok(FinishDecision::Complete { completed_at: 1_000, expire_at: 3_601_000 })
    );
}

#[test]
fn finishing_accepts_a_newer_token() {
    assert_eq!(
        decide_finish(Some(2), Some(WorkflowStatus::Running), 5, 10, 1_000),
        Ok(FinishDecision::Complete { completed_at: 1_000, expire_at: 1_010 })
    );
}

#[test]
fn finishing_a_completed_workflow_changes_nothing() {
    assert_eq!(
        decide_finish(Some(2), Some(WorkflowStatus::Completed), 2, 3_600_000, 1_000),
        Ok(FinishDecision::AlreadyCompleted)
    );
}

#[test]
fn finishing_may_expire_in_the_past() {
    assert_eq!(
        decide_finish(Some(1), Some(WorkflowStatus::Running), 1, -500, 1_000),
        Ok(FinishDecision::Complete { completed_at: 1_000, expire_at: 500 })
    );
}

#[test]
fn a_running_workflow_never_expires() {
    assert!(!workflow_is_expired(&workflow(WorkflowStatus::Running, None), i64::MAX));
    assert!(!workflow_is_expired(&workflow(WorkflowStatus::Running, Some(5)), 100));
}

#[test]
fn a_completed_workflow_expires_strictly_after_its_expiry() {
    assert!(workflow_is_expired(&workflow(WorkflowStatus::Completed, Some(99)), 100));
    assert!(!workflow_is_expired(&workflow(WorkflowStatus::Completed, Some(100)), 100));
    assert!(!workflow_is_expired(&workflow(WorkflowStatus::Completed, Some(101)), 100));
}

#[test]
fn a_completed_workflow_without_expiry_stays() {
    assert!(!workflow_is_expired(&workflow(WorkflowStatus::Completed, None), i64::MAX));
}

#[test]
fn status_codes_round_trip() {
    assert_eq!(WorkflowStatus::Running.code(), 0);
    assert_eq!(WorkflowStatus::Completed.code(), 1);
    assert_eq!(WorkflowStatus::from_code(0), Some(WorkflowStatus::Running));
    assert_eq!(WorkflowStatus::from_code(1), Some(WorkflowStatus::Completed));
    assert_eq!(WorkflowStatus::from_code(2), None);
    assert_eq!(WorkflowStatus::from_code(-1), None);
}

#[test]
fn the_caller_is_judged_without_a_clock() {
    assert_eq!(
        judge_finish(None, Some(WorkflowStatus::Running), 1),
        Err(WorkflowError::WorkflowNotFound)
    );
    assert_eq!(
        judge_finish(Some(2), Some(WorkflowStatus::Running), 1),
        Err(WorkflowError::FencingTokenExpired { stored: 2, provided: 1 })
    );
    assert_eq!(
        judge_finish(Some(2), None, 1),
        Err(WorkflowError::FencingTokenExpired { stored: 2, provided: 1 })
    );
    assert_eq!(judge_finish(Some(2), None, 2), Err(WorkflowError::WorkflowNotFound));
    assert_eq!(judge_finish(Some(2), Some(WorkflowStatus::Running), 2), Ok(WorkflowStatus::Running));
    assert_eq!(judge_finish(Some(2), Some(WorkflowStatus::Running), 9), Ok(WorkflowStatus::Running));
    assert_eq!(
        judge_finish(Some(2), Some(WorkflowStatus::Completed), 2),
        Ok(WorkflowStatus::Completed)
    );
}

#[test]
fn a_refusal_needs_no_expiry() {
    assert_eq!(
        decide_finish(None, Some(WorkflowStatus::Running), 1, i64::MAX, i64::MAX),
        Err(WorkflowError::WorkflowNotFound)
    );
    assert_eq!(
        decide_finish(Some(2), Some(WorkflowStatus::Running), 1, i64::MAX, i64::MAX),
        Err(WorkflowError::FencingTokenExpired { stored: 2, provided: 1 })
    );
    assert_eq!(
        decide_finish(Some(2), None, 2, i64::MIN, i64::MIN),
        Err(WorkflowError::WorkflowNotFound)
    );
}

#[test]
fn a_repeated_completion_needs_no_expiry() {
    assert_eq!(
        decide_finish(Some(2), Some(WorkflowStatus::Completed), 2, i64::MAX, i64::MAX),
        Ok(FinishDecision::AlreadyCompleted)
    );
    assert_eq!(
        decide_finish(Some(2), Some(WorkflowStatus::Completed), 7, i64::MIN, i64::MIN),
        Ok(FinishDecision::AlreadyCompleted)
    );
}

#[test]
fn a_completion_may_expire_at_the_last_instant() {
    assert_eq!(
        decide_finish(Some(1), Some(WorkflowStatus::Running), 1, i64::MAX - 1_000, 1_000),
        Ok(FinishDecision::Complete { completed_at: 1_000, expire_at: i64::MAX })
    );
}
