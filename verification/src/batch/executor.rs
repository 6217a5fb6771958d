use vstd::prelude::*;
use vstd::string::to_string_from_display_ensures;

use crate::error::{ThreadPoolError, ThreadPoolResult};

verus! {

#[verifier::external_type_specification]
#[verifier::external_body]
pub struct ExJoinError(tokio::task::JoinError);

/// The result a batch reports for one task, given the outcome of its
/// submission: the task's own result once it was submitted, or the error
/// that refused its submission.
pub open spec fn task_result<T>(outcome: ThreadPoolResult<ThreadPoolResult<T>>) -> ThreadPoolResult<T> {
    match outcome {
        Ok(result) => result,
        Err(e) => Err(e),
    }
}

/// The results of a batch: one per task, in task order, each the task's own
/// result or, where its submission failed, the submission's error.
pub fn collect_results<T>(outcomes: Vec<ThreadPoolResult<ThreadPoolResult<T>>>) -> (results: Vec<
    ThreadPoolResult<T>,
>)
    ensures
        results@.len() == outcomes@.len(),
        forall|i: int| 0 <= i < outcomes@.len() ==> #[trigger] results@[i] == task_result(outcomes@[i]),
        forall|i: int|
            0 <= i < outcomes@.len() ==> (#[trigger] outcomes@[i] matches Ok(r) ==> results@[i] == r),
        forall|i: int|
            0 <= i < outcomes@.len() ==> (#[trigger] outcomes@[i] matches Err(e) ==> results@[i] == Err::<T, _>(e)),
{
    let ghost all = outcomes@;
    let mut rest = outcomes;
    let mut results: Vec<ThreadPoolResult<T>> = Vec::new();
    while rest.len() > 0
        invariant
            rest@.len() <= all.len(),
            rest@ == all.subrange(all.len() - rest@.len(), all.len() as int),
            results@.len() == all.len() - rest@.len(),
            forall|i: int| 0 <= i < results@.len() ==> #[trigger] results@[i] == task_result(all[i]),
        decreases rest@.len(),
    {
        let ghost done = all.len() - rest@.len();
        let outcome = rest.remove(0);
        assert(outcome == all[done]);
        assert(rest@ =~= all.subrange(all.len() - rest@.len(), all.len() as int));
        let result = match outcome {
            Ok(result) => result,
            Err(e) => Err(e),
        };
        results.push(result);
    }
    proof {
        assert forall|i: int| 0 <= i < all.len() implies (#[trigger] all[i] matches Ok(r) ==> results@[i] == r) && (
        all[i] matches Err(e) ==> results@[i] == Err::<T, _>(e)) by {
            assert(results@[i] == task_result(all[i]));
        }
    }
    results
}

/// What a batch reports for a task: a submitted task's own result, whatever
/// it is (a value or the task's own error), and a refused submission's
/// error. A submitted task is never reported as anything but what it
/// produced, and a refused one never as succeeding.
pub proof fn lemma_task_result<T>(outcome: ThreadPoolResult<ThreadPoolResult<T>>)
    ensures
        outcome matches Ok(r) ==> task_result(outcome) == r,
        outcome matches Err(e) ==> task_result(outcome) == Err::<T, _>(e),
        task_result(outcome) is Ok <==> (outcome matches Ok(r) && r is Ok),
{
}

/// The result of a task that was run on a spawned runtime task: the task's
/// own result, or `TaskExecutionFailed` with the join error's text when the
/// runtime task panicked or was cancelled.
pub fn flatten_joined<T>(joined: Result<ThreadPoolResult<T>, tokio::task::JoinError>) -> (r: ThreadPoolResult<T>)
    ensures
        joined matches Ok(result) ==> r == result,
        joined matches Err(e) ==> (r matches Err(ThreadPoolError::TaskExecutionFailed(msg))
            && to_string_from_display_ensures::<tokio::task::JoinError>(&e, msg)),
{
    match joined {
        Ok(result) => result,
        Err(e) => Err(ThreadPoolError::TaskExecutionFailed(e.to_string())),
    }
}

} // verus!
