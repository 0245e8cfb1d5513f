//! The fencing-token authority: the per-workflow ownership epoch, how it is
//! granted and how a caller's epoch is judged.

use vstd::prelude::*;
use crate::error::WorkflowError;
use crate::helpers::return_error_if_true;

verus! {

/// The first epoch of a workflow.
pub const INITIAL_FENCING_TOKEN: i64 = 1;

/// A caller is stale exactly when the recorded epoch is strictly newer than
/// the one it presents.
pub open spec fn is_stale(stored: i64, provided: i64) -> bool {
    stored > provided
}

/// The verdict on a caller's epoch: the recorded epoch when the caller is
/// current (or ahead), and a failure when nothing is recorded or the caller
/// is stale.
pub open spec fn fencing_verdict(stored: Option<i64>, provided: i64) -> Result<i64, WorkflowError> {
    match stored {
        None => Err(WorkflowError::FencingTokenNotFound),
        Some(s) => if is_stale(s, provided) {
            Err(WorkflowError::FencingTokenExpired { stored: s, provided })
        } else {
            Ok(s)
        },
    }
}

/// Judges a caller's epoch against the recorded one.
pub fn check_fencing_token(stored: Option<i64>, provided: i64) -> (verdict: Result<
    i64,
    WorkflowError,
>)
    ensures
        verdict == fencing_verdict(stored, provided),
{
    match stored {
        None => Err(WorkflowError::FencingTokenNotFound),
        Some(s) => {
            return_error_if_true(s > provided, WorkflowError::FencingTokenExpired { stored: s, provided })?;
            Ok(s)
        },
    }
}

/// The epoch that a start hands to its caller.
///
/// A top-level start mints a fresh epoch: 1 for a workflow without one, the
/// successor of the recorded epoch otherwise. A nested start inherits the
/// recorded epoch and fails where there is none.
pub open spec fn granted_token(stored: Option<i64>, is_nested: bool) -> Result<int, WorkflowError> {
    match stored {
        None => if is_nested {
            Err(WorkflowError::NestedFencingConflict)
        } else {
            Ok(INITIAL_FENCING_TOKEN as int)
        },
        Some(s) => if is_nested {
            Ok(s as int)
        } else {
            Ok(s + 1)
        },
    }
}

/// Whether a grant can be recorded: the successor of the recorded epoch must
/// be representable.
pub open spec fn grant_fits(stored: Option<i64>, is_nested: bool) -> bool {
    !is_nested ==> (stored matches Some(s) ==> s < i64::MAX)
}

/// Computes the epoch to hand out, and to record, for a start.
pub fn grant_token(stored: Option<i64>, is_nested: bool) -> (granted: Result<i64, WorkflowError>)
    requires
        grant_fits(stored, is_nested),
    ensures
        match granted_token(stored, is_nested) {
            Ok(t) => granted == Ok::<i64, WorkflowError>(t as i64) && t == t as i64,
            Err(e) => granted == Err::<i64, WorkflowError>(e),
        },
{
    match stored {
        None => {
            return_error_if_true(is_nested, WorkflowError::NestedFencingConflict)?;
            Ok(INITIAL_FENCING_TOKEN)
        },
        Some(s) => {
            if is_nested {
                Ok(s)
            } else {
                Ok(s + 1)
            }
        },
    }
}

} // verus!
