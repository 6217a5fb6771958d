use tokio_fusion::batch::{collect_results, flatten_joined};
use tokio_fusion::error::{ThreadPoolError, ThreadPoolResult};
use tokio_fusion::task::settle_result;

#[test]
fn a_delivered_result_is_passed_through() {
    let ok: ThreadPoolResult<u32> = settle_result(Ok(Ok(9)));
    assert_eq!(ok.unwrap(), 9);
    let failed: ThreadPoolResult<u32> =
        settle_result(Ok(Err(ThreadPoolError::TaskExecutionFailed("bad".to_string()))));
    assert!(matches!(failed, Err(ThreadPoolError::TaskExecutionFailed(m)) if m == "bad"));
}

#[test]
fn a_dropped_task_is_reported_cancelled() {
    let (tx, rx) = tokio::sync::oneshot::channel::<ThreadPoolResult<u32>>();
    drop(tx);
    let r = settle_result(rx.blocking_recv());
    assert!(matches!(r, Err(ThreadPoolError::TaskCancelled)));
}

#[test]
fn a_failed_submission_keeps_its_place_in_the_batch() {
    let outcomes: Vec<ThreadPoolResult<ThreadPoolResult<u32>>> = vec![
        Ok(Ok(1)),
        Err(ThreadPoolError::ShuttingDown),
        Ok(Err(ThreadPoolError::TaskCancelled)),
        Ok(Ok(4)),
    ];
    let results = collect_results(outcomes);
    assert_eq!(results.len(), 4);
    assert!(matches!(results[0], Ok(1)));
    assert!(matches!(results[1], Err(ThreadPoolError::ShuttingDown)));
    assert!(matches!(results[2], Err(ThreadPoolError::TaskCancelled)));
    assert!(matches!(results[3], Ok(4)));
    assert!(collect_results::<u32>(Vec::new()).is_empty());
}

#[test]
fn a_joined_result_is_passed_through() {
    let r: ThreadPoolResult<u32> = flatten_joined(Ok(Ok(4)));
    assert_eq!(r.unwrap(), 4);
    let e: ThreadPoolResult<u32> = flatten_joined(Ok(Err(ThreadPoolError::ShuttingDown)));
    assert!(matches!(e, Err(ThreadPoolError::ShuttingDown)));
}

#[test]
fn a_cancelled_runtime_task_is_an_execution_failure() {
    let rt = tokio::runtime::Builder::new_current_thread().build().unwrap();
    let handle = rt.spawn(async { std::future::pending::<ThreadPoolResult<u32>>().await });
    handle.abort();
    let joined = rt.block_on(handle);
    let text = joined.as_ref().err().map(|e| e.to_string()).unwrap();
    match flatten_joined(joined) {
        Err(ThreadPoolError::TaskExecutionFailed(m)) => {
            assert_eq!(m, text);
            assert!(m.contains("cancelled"));
        }
        _ => panic!("expected an execution failure"),
    }
}

#[test]
fn serde_errors_become_serialization_errors() {
    let err = serde_json::from_str::<u32>("not a number").unwrap_err();
    let text = err.to_string();
    match ThreadPoolError::from_serde_error(&err) {
        ThreadPoolError::SerializationError(m) => assert_eq!(m, text),
        other => panic!("unexpected {:?}", other),
    }
}

#[test]
fn io_errors_become_execution_failures() {
    let err = std::io::Error::new(std::io::ErrorKind::Other, "disk on fire");
    match ThreadPoolError::from_io_error(&err) {
        ThreadPoolError::TaskExecutionFailed(m) => assert_eq!(m, "disk on fire"),
        other => panic!("unexpected {:?}", other),
    }
}
