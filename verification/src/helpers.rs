//! Small helpers shared by the decision procedures.

use vstd::prelude::*;
use crate::error::WorkflowError;

verus! {

/// Fails with `status` exactly when `condition` holds.
pub fn return_error_if_true(condition: bool, status: WorkflowError) -> (outcome: Result<
    (),
    WorkflowError,
>)
    ensures
        condition ==> outcome == Err::<(), WorkflowError>(status),
        !condition ==> outcome == Ok::<(), WorkflowError>(()),
{
    if condition {
        Err(status)
    } else {
        Ok(())
    }
}

} // verus!
