use vstd::prelude::*;

use crate::error::PipelineError;

verus! {

/// A status in the 2xx range.
pub open spec fn is_success(status: u16) -> bool {
    200 <= status <= 299
}

/// The error that an object-store status stands for.
pub open spec fn store_error_spec(status: u16) -> PipelineError {
    if status == 401 || status == 403 {
        PipelineError::Authentication
    } else if status == 404 {
        PipelineError::NotFound
    } else {
        PipelineError::Transfer
    }
}

/// The outcome of a dataset download answered with `status`: any status
/// outside the 2xx range is a transfer failure.
pub fn check_fetch_status(status: u16) -> (r: Result<(), PipelineError>)
    ensures
        r is Ok <==> is_success(status),
        r is Err ==> r->Err_0 == PipelineError::Transfer,
{
    if 200 <= status && status <= 299 {
        Ok(())
    } else {
        Err(PipelineError::Transfer)
    }
}

/// The error for a failed object-store request answered with `status`:
/// refused credentials, a missing object, or any other transfer failure.
pub fn store_error(status: u16) -> (r: PipelineError)
    ensures
        r == store_error_spec(status),
{
    if status == 401 || status == 403 {
        PipelineError::Authentication
    } else if status == 404 {
        PipelineError::NotFound
    } else {
        PipelineError::Transfer
    }
}

} // verus!
