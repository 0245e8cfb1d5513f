use workflow_coordinator::error::{to_status, ErrorKind, StatusCode, WorkflowError};

#[test]
fn each_failure_has_its_kind() {
    assert_eq!(WorkflowError::FencingTokenNotFound.kind(), ErrorKind::NotFound);
    assert_eq!(WorkflowError::WorkflowNotFound.kind(), ErrorKind::NotFound);
    assert_eq!(
        WorkflowError::FencingTokenExpired { stored: 2, provided: 1 }.kind(),
        ErrorKind::Conflict
    );
    assert_eq!(WorkflowError::NestedFencingConflict.kind(), ErrorKind::Conflict);
    assert_eq!(
        WorkflowError::NonDeterministicCheckpoint { position_checksum: 1, stored: 2, provided: 3 }
            .kind(),
        ErrorKind::Conflict
    );
    assert_eq!(
        WorkflowError::UnexpectedState { stored: 1, provided: 2 }.kind(),
        ErrorKind::UnexpectedState
    );
}

#[test]
fn each_failure_has_its_message() {
    assert_eq!(WorkflowError::FencingTokenNotFound.message(), "fencing_token_not_found");
    assert_eq!(WorkflowError::WorkflowNotFound.message(), "workflow_not_found");
    assert_eq!(
        WorkflowError::FencingTokenExpired { stored: 2, provided: 1 }.message(),
        "fencing_token_expired"
    );
    assert_eq!(WorkflowError::NestedFencingConflict.message(), "nested_fencing_conflict");
    assert_eq!(
        WorkflowError::NonDeterministicCheckpoint { position_checksum: 1, stored: 2, provided: 3 }
            .message(),
        "non_deterministic_checkpoint_found"
    );
    assert_eq!(WorkflowError::UnexpectedState { stored: 1, provided: 2 }.message(), "unexpected state");
}

#[test]
fn each_kind_has_its_status() {
    assert_eq!(to_status(ErrorKind::NotFound), StatusCode::NotFound);
    assert_eq!(to_status(ErrorKind::Conflict), StatusCode::Aborted);
    assert_eq!(to_status(ErrorKind::Internal), StatusCode::Internal);
    assert_eq!(to_status(ErrorKind::UnexpectedState), StatusCode::Internal);
}
