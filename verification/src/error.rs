use vstd::prelude::*;
use vstd::string::to_string_from_display_ensures;

verus! {

#[verifier::external_type_specification]
#[verifier::external_body]
pub struct ExSerdeJsonError(serde_json::Error);

#[verifier::external_type_specification]
#[verifier::external_body]
pub struct ExIoError(std::io::Error);

/// Thread pool error type.
#[derive(Debug)]
pub enum ThreadPoolError {
    /// Failed to submit a task to the thread pool.
    TaskSubmissionFailed(String),
    /// Task execution failed with the given error message.
    TaskExecutionFailed(String),
    /// The thread pool is shutting down.
    ShuttingDown,
    /// The task was cancelled before completion.
    TaskCancelled,
    /// Serialization or deserialization error.
    SerializationError(String),
}

/// Result type for the thread pool service.
pub type ThreadPoolResult<T> = Result<T, ThreadPoolError>;

impl ThreadPoolError {
    /// A serialization error carrying the display text of a `serde_json` error.
    pub fn from_serde_error(err: &serde_json::Error) -> (e: Self)
        ensures
            e matches ThreadPoolError::SerializationError(msg) && to_string_from_display_ensures::<
                serde_json::Error,
            >(err, msg),
    {
        ThreadPoolError::SerializationError(err.to_string())
    }

    /// An execution failure carrying the display text of an I/O error.
    pub fn from_io_error(err: &std::io::Error) -> (e: Self)
        ensures
            e matches ThreadPoolError::TaskExecutionFailed(msg) && to_string_from_display_ensures::<
                std::io::Error,
            >(err, msg),
    {
        ThreadPoolError::TaskExecutionFailed(err.to_string())
    }
}

} // verus!
