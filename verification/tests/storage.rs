use task_manager::messages::{RegistryError, SendOutcome, TaskResponse};
use task_manager::storage::stored_tasks;
use task_manager::task::{Task, TaskStatus};

fn task(id: &str) -> Task {
    Task {
        id: id.to_string(),
        title: "t".to_string(),
        description: "d".to_string(),
        status: TaskStatus::Pending,
        created_at: 3,
        assigned_to: None,
    }
}

#[test]
fn storage_timeout_leaves_the_created_task_in_the_answer() {
    let response = TaskResponse::created(task("a"), &SendOutcome::Timeout);
    assert!(response.success);
    assert!(!response.storage_status);
    assert_eq!(response.task.unwrap().id, "a");
    assert_eq!(response.message, "Task created successfully");
}

#[test]
fn every_failed_outcome_lowers_the_storage_flag() {
    for outcome in [
        SendOutcome::Timeout,
        SendOutcome::Offline,
        SendOutcome::DeserializationError("bad".to_string()),
    ] {
        assert!(!outcome.is_ok());
        let created = TaskResponse::created(task("a"), &outcome);
        assert!(created.success && created.task.is_some() && !created.storage_status);
        let updated = TaskResponse::updated(task("a"), &outcome);
        assert!(updated.success && updated.task.is_some() && !updated.storage_status);
    }
}

#[test]
fn answered_storage_call_raises_the_flag_whatever_it_answered() {
    for answer in [true, false] {
        let outcome = SendOutcome::Success(answer);
        assert!(outcome.is_ok());
        assert!(TaskResponse::created(task("a"), &outcome).storage_status);
        assert!(TaskResponse::updated(task("a"), &outcome).storage_status);
    }
}

#[test]
fn update_answer_carries_the_task() {
    let mut changed = task("a");
    changed.status = TaskStatus::Completed;
    let response = TaskResponse::updated(changed, &SendOutcome::Success(true));
    assert!(response.success);
    assert!(response.storage_status);
    assert_eq!(response.message, "Task updated successfully");
    assert_eq!(response.task.unwrap().status, TaskStatus::Completed);
}

#[test]
fn lookup_answers() {
    let found = TaskResponse::found(task("a"));
    assert!(found.success && found.storage_status);
    assert_eq!(found.message, "Task found");
    assert_eq!(found.task.unwrap().id, "a");
    let missing = TaskResponse::missing();
    assert!(!missing.success && missing.storage_status);
    assert!(missing.task.is_none());
    assert_eq!(missing.message, "Task not found");
}

#[test]
fn refusals_name_their_reason() {
    let missing = TaskResponse::rejected(RegistryError::NotFound);
    assert!(!missing.success && !missing.storage_status);
    assert!(missing.task.is_none());
    assert_eq!(missing.message, "Task not found");
    let taken = TaskResponse::rejected(RegistryError::DuplicateIdentifier);
    assert!(!taken.success && !taken.storage_status);
    assert!(taken.task.is_none());
    assert_eq!(taken.message, "Task identifier already in use");
}

#[test]
fn stored_tasks_come_back_as_they_were_sent() {
    let tasks = stored_tasks(SendOutcome::Success(vec![task("a"), task("b")])).unwrap();
    assert_eq!(tasks.len(), 2);
    assert_eq!(tasks[0].id, "a");
    assert_eq!(tasks[1].id, "b");
    assert!(stored_tasks(SendOutcome::Success(Vec::new())).unwrap().is_empty());
}

#[test]
fn storage_failures_are_reported_in_words() {
    assert_eq!(
        stored_tasks(SendOutcome::Timeout).unwrap_err(),
        "Timeout connecting to storage"
    );
    assert_eq!(stored_tasks(SendOutcome::Offline).unwrap_err(), "Storage service is offline");
    assert_eq!(
        stored_tasks(SendOutcome::DeserializationError("missing field `id`".to_string()))
            .unwrap_err(),
        "Failed to deserialize tasks: missing field `id`"
    );
    assert_eq!(
        stored_tasks(SendOutcome::DeserializationError(String::new())).unwrap_err(),
        "Failed to deserialize tasks: "
    );
}
