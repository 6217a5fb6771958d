use vstd::prelude::*;

use crate::error::{ThreadPoolError, ThreadPoolResult};

verus! {

#[verifier::external_type_specification]
#[verifier::external_body]
pub struct ExRecvError(tokio::sync::oneshot::error::RecvError);

/// What waiting on a task handle yields, given what its channel delivered:
/// the task's own result, or `TaskCancelled` when the task was dropped
/// before it sent one.
pub fn settle_result<T>(received: Result<ThreadPoolResult<T>, tokio::sync::oneshot::error::RecvError>) -> (r: ThreadPoolResult<T>)
    ensures
        received matches Ok(result) ==> r == result,
        received is Err ==> r == Err::<T, _>(ThreadPoolError::TaskCancelled),
{
    match received {
        Ok(result) => result,
        Err(_) => Err(ThreadPoolError::TaskCancelled),
    }
}

} // verus!
