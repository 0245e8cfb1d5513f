//! The closed taxonomy of failures that the coordination core reports.

use vstd::prelude::*;

verus! {

/// Every way in which an operation of the core can refuse a request.
///
/// The integers carried by a variant are the values that the decision
/// compared, so that a caller can log them without re-reading the store.
#[derive(Debug, Clone, Copy, PartialEq, Eq, Structural)]
pub enum WorkflowError {
    /// No ownership epoch has been recorded for the workflow.
    FencingTokenNotFound,
    /// The workflow, or its epoch, does not exist (any more).
    WorkflowNotFound,
    /// The caller presented an epoch older than the recorded one.
    FencingTokenExpired { stored: i64, provided: i64 },
    /// A nested start was attempted before any epoch was established.
    NestedFencingConflict,
    /// A step was replayed with inputs that differ from the committed ones.
    NonDeterministicCheckpoint { position_checksum: i64, stored: i64, provided: i64 },
    /// The caller presented an epoch newer than any that was ever granted.
    UnexpectedState { stored: i64, provided: i64 },
}

/// The coarse classes into which failures fall.
#[derive(Debug, Clone, Copy, PartialEq, Eq, Structural)]
pub enum ErrorKind {
    /// The entity has no recorded epoch yet or has been collected.
    NotFound,
    /// A routine protocol outcome: the caller is stale, misuses nesting or
    /// has diverged from its own earlier execution.
    Conflict,
    /// The storage layer failed; the request may be retried by the caller.
    Internal,
    /// A protocol invariant was found broken; fatal to the single request.
    UnexpectedState,
}

/// The signal that the transport layer sends back for a failed request.
#[derive(Debug, Clone, Copy, PartialEq, Eq, Structural)]
pub enum StatusCode {
    NotFound,
    Aborted,
    Internal,
}

impl WorkflowError {
    /// The class of this failure.
    pub open spec fn spec_kind(self) -> ErrorKind {
        match self {
            WorkflowError::FencingTokenNotFound => ErrorKind::NotFound,
            WorkflowError::WorkflowNotFound => ErrorKind::NotFound,
            WorkflowError::FencingTokenExpired { .. } => ErrorKind::Conflict,
            WorkflowError::NestedFencingConflict => ErrorKind::Conflict,
            WorkflowError::NonDeterministicCheckpoint { .. } => ErrorKind::Conflict,
            WorkflowError::UnexpectedState { .. } => ErrorKind::UnexpectedState,
        }
    }

    #[verifier::when_used_as_spec(spec_kind)]
    pub fn kind(self) -> (kind: ErrorKind)
        ensures
            kind == self.spec_kind(),
    {
        match self {
            WorkflowError::FencingTokenNotFound => ErrorKind::NotFound,
            WorkflowError::WorkflowNotFound => ErrorKind::NotFound,
            WorkflowError::FencingTokenExpired { .. } => ErrorKind::Conflict,
            WorkflowError::NestedFencingConflict => ErrorKind::Conflict,
            WorkflowError::NonDeterministicCheckpoint { .. } => ErrorKind::Conflict,
            WorkflowError::UnexpectedState { .. } => ErrorKind::UnexpectedState,
        }
    }

    /// A stable, machine-readable name for this failure.
    pub fn message(self) -> (text: String)
        ensures
            text@ == self.spec_message(),
    {
        match self {
            WorkflowError::FencingTokenNotFound => String::from_str("fencing_token_not_found"),
            WorkflowError::WorkflowNotFound => String::from_str("workflow_not_found"),
            WorkflowError::FencingTokenExpired { .. } => String::from_str("fencing_token_expired"),
            WorkflowError::NestedFencingConflict => String::from_str("nested_fencing_conflict"),
            WorkflowError::NonDeterministicCheckpoint { .. } => String::from_str(
                "non_deterministic_checkpoint_found",
            ),
            WorkflowError::UnexpectedState { .. } => String::from_str("unexpected state"),
        }
    }

    pub open spec fn spec_message(self) -> Seq<char> {
        match self {
            WorkflowError::FencingTokenNotFound => "fencing_token_not_found"@,
            WorkflowError::WorkflowNotFound => "workflow_not_found"@,
            WorkflowError::FencingTokenExpired { .. } => "fencing_token_expired"@,
            WorkflowError::NestedFencingConflict => "nested_fencing_conflict"@,
            WorkflowError::NonDeterministicCheckpoint { .. } => "non_deterministic_checkpoint_found"@,
            WorkflowError::UnexpectedState { .. } => "unexpected state"@,
        }
    }
}

/// The transport signal for each class of failure: what is missing is
/// reported as missing, a conflict aborts the request, and everything else is
/// an internal fault.
pub open spec fn status_of(kind: ErrorKind) -> StatusCode {
    match kind {
        ErrorKind::NotFound => StatusCode::NotFound,
        ErrorKind::Conflict => StatusCode::Aborted,
        ErrorKind::Internal => StatusCode::Internal,
        ErrorKind::UnexpectedState => StatusCode::Internal,
    }
}

/// Maps a class of failure to the signal sent over the wire.
pub fn to_status(kind: ErrorKind) -> (code: StatusCode)
    ensures
        code == status_of(kind),
{
    match kind {
        ErrorKind::NotFound => StatusCode::NotFound,
        ErrorKind::Conflict => StatusCode::Aborted,
        ErrorKind::Internal => StatusCode::Internal,
        ErrorKind::UnexpectedState => StatusCode::Internal,
    }
}

} // verus!
