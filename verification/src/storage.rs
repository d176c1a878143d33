//! Reading what the storage process answered.

use vstd::prelude::*;
use vstd::string::StringExecFns;
use crate::messages::SendOutcome;
use crate::task::Task;

verus! {

/// What is reported where storage cannot give the stored tasks back.
pub open spec fn load_failure<T>(outcome: SendOutcome<T>) -> Seq<char> {
    match outcome {
        SendOutcome::Success(_) => Seq::empty(),
        SendOutcome::Timeout => "Timeout connecting to storage"@,
        SendOutcome::Offline => "Storage service is offline"@,
        SendOutcome::DeserializationError(detail) => "Failed to deserialize tasks: "@ + detail@,
    }
}

/// The stored tasks that a call to storage brought, or the failure to
/// report: a timeout, an offline service, or an answer that could not be
/// read, with its detail.
pub fn stored_tasks(outcome: SendOutcome<Vec<Task>>) -> (stored: Result<Vec<Task>, String>)
    ensures
        match stored {
            Ok(tasks) => outcome == SendOutcome::Success(tasks),
            Err(failure) => !outcome.is_ok() && failure@ == load_failure(outcome),
        },
{
    match outcome {
        SendOutcome::Success(tasks) => Ok(tasks),
        SendOutcome::Timeout => Err("Timeout connecting to storage".to_string()),
        SendOutcome::Offline => Err("Storage service is offline".to_string()),
        SendOutcome::DeserializationError(detail) => Err(
            "Failed to deserialize tasks: ".to_string().concat(detail.as_str()),
        ),
    }
}

} // verus!
