use workflow_coordinator::error::WorkflowError;
use workflow_coordinator::ledger::{decide_write, fence_commit, WriteDecision};
use workflow_coordinator::schema::LeasedCheckpointValue;

fn ledger_lease(lease_timeout: i64, created_at: i64) -> LeasedCheckpointValue {
    LeasedCheckpointValue { lease_timeout, created_at }
}

#[test]
fn a_commit_needs_a_recorded_token() {
    assert_eq!(fence_commit(None, None, 1, 100), Err(WorkflowError::FencingTokenNotFound));
    assert_eq!(
        fence_commit(None, Some(ledger_lease(1000, 0)), 1, 100),
        Err(WorkflowError::FencingTokenNotFound)
    );
}

#[test]
fn a_stale_commit_under_a_live_lease_is_refused() {
    assert_eq!(
        fence_commit(Some(3), Some(ledger_lease(1000, 0)), 2, 100),
        Err(WorkflowError::FencingTokenExpired { stored: 3, provided: 2 })
    );
    assert_eq!(
        fence_commit(Some(3), Some(ledger_lease(1000, 0)), 2, 1000),
        Err(WorkflowError::FencingTokenExpired { stored: 3, provided: 2 })
    );
}

#[test]
fn a_stale_commit_after_expiry_is_kept_with_abort() {
    assert_eq!(fence_commit(Some(3), Some(ledger_lease(1000, 0)), 2, 1001), Ok(true));
}

#[test]
fn a_stale_commit_without_a_lease_is_kept_with_abort() {
    assert_eq!(fence_commit(Some(3), None, 2, 100), Ok(true));
}

#[test]
fn a_current_commit_does_not_abort() {
    assert_eq!(fence_commit(Some(3), Some(ledger_lease(1000, 0)), 3, 100), Ok(false));
    assert_eq!(fence_commit(Some(3), Some(ledger_lease(1000, 0)), 3, 5000), Ok(false));
    assert_eq!(fence_commit(Some(3), None, 3, 100), Ok(false));
    assert_eq!(fence_commit(Some(3), None, 4, 100), Ok(false));
}

#[test]
fn a_first_commit_inserts() {
    assert_eq!(decide_write(9, None, 77), Ok(WriteDecision::Insert));
}

#[test]
fn a_repeated_commit_keeps_the_row() {
    assert_eq!(decide_write(9, Some(77), 77), Ok(WriteDecision::Keep));
}

#[test]
fn a_diverging_commit_is_non_deterministic() {
    assert_eq!(
        decide_write(9, Some(77), 78),
        Err(WorkflowError::NonDeterministicCheckpoint {
            position_checksum: 9,
            stored: 77,
            provided: 78
        })
    );
}
