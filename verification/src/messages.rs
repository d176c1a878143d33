//! Requests, responses and the outcomes of outside work.

use vstd::prelude::*;
use crate::task::{Task, TaskStatus, TaskView, optional_text};
use crate::model::StatisticsView;

verus! {

/// Why the registry turned a request down.
#[derive(Clone, Copy, Debug, PartialEq, Eq, Structural)]
pub enum RegistryError {
    /// No task carries the requested identifier.
    NotFound,
    /// A task already carries the identifier offered for a new one.
    DuplicateIdentifier,
}

/// The value of what a change to the registry returns.
pub open spec fn task_result_view(result: Result<Task, RegistryError>) -> Result<
    TaskView,
    RegistryError,
> {
    match result {
        Ok(task) => Ok(task@),
        Err(error) => Err(error),
    }
}

/// What a client sends to have a task created.
#[derive(Debug)]
pub struct NewTaskRequest {
    pub title: String,
    pub description: String,
    pub assigned_to: Option<String>,
}

impl NewTaskRequest {
    /// The task that this request asks for, under `id`, created at `now`.
    pub open spec fn task(self, id: Seq<char>, now: u64) -> TaskView {
        TaskView {
            id,
            title: self.title@,
            description: self.description@,
            status: TaskStatus::Pending,
            created_at: now,
            assigned_to: optional_text(self.assigned_to),
        }
    }
}

/// What a client sends to move a task to another status.
#[derive(Debug)]
pub struct TaskStatusUpdateRequest {
    pub task_id: String,
    pub new_status: TaskStatus,
}

/// How a call to another process ended.
#[derive(Debug)]
pub enum SendOutcome<T> {
    Success(T),
    Timeout,
    Offline,
    DeserializationError(String),
}

impl<T> SendOutcome<T> {
    /// The call came back with a value.
    pub open spec fn spec_is_ok(&self) -> bool {
        self is Success
    }

    #[verifier::when_used_as_spec(spec_is_ok)]
    pub fn is_ok(&self) -> (ok: bool)
        ensures
            ok == self.spec_is_ok(),
    {
        match self {
            SendOutcome::Success(_) => true,
            _ => false,
        }
    }
}

/// The value of a [`TaskResponse`].
pub struct TaskResponseView {
    pub success: bool,
    pub task: Option<TaskView>,
    pub storage_status: bool,
    pub message: Seq<char>,
}

impl TaskResponseView {
    /// The answer to a lookup that found `task`.
    pub open spec fn found(task: TaskView) -> TaskResponseView {
        TaskResponseView {
            success: true,
            task: Some(task),
            storage_status: true,
            message: "Task found"@,
        }
    }

    /// The answer to a lookup that found nothing.
    pub open spec fn missing() -> TaskResponseView {
        TaskResponseView {
            success: false,
            task: None,
            storage_status: true,
            message: "Task not found"@,
        }
    }

    /// The answer to a create request that stored `task` here; `stored`
    /// says whether the storage process took it too.
    pub open spec fn created(task: TaskView, stored: bool) -> TaskResponseView {
        TaskResponseView {
            success: true,
            task: Some(task),
            storage_status: stored,
            message: "Task created successfully"@,
        }
    }

    /// The answer to a status update that left `task` as given.
    pub open spec fn updated(task: TaskView, stored: bool) -> TaskResponseView {
        TaskResponseView {
            success: true,
            task: Some(task),
            storage_status: stored,
            message: "Task updated successfully"@,
        }
    }

    /// The answer to a change that the registry turned down.
    pub open spec fn rejected(error: RegistryError) -> TaskResponseView {
        TaskResponseView {
            success: false,
            task: None,
            storage_status: false,
            message: match error {
                RegistryError::NotFound => "Task not found"@,
                RegistryError::DuplicateIdentifier => "Task identifier already in use"@,
            },
        }
    }
}

/// The structured answer to a request about one task.
#[derive(Debug)]
pub struct TaskResponse {
    pub success: bool,
    pub task: Option<Task>,
    pub storage_status: bool,
    pub message: String,
}

impl View for TaskResponse {
    type V = TaskResponseView;

    open spec fn view(&self) -> TaskResponseView {
        TaskResponseView {
            success: self.success,
            task: match self.task {
                Some(t) => Some(t@),
                None => None,
            },
            storage_status: self.storage_status,
            message: self.message@,
        }
    }
}

impl TaskResponse {
    /// Answers a lookup that found `task`.
    pub fn found(task: Task) -> (response: TaskResponse)
        ensures
            response@ == TaskResponseView::found(task@),
    {
        TaskResponse {
            success: true,
            task: Some(task),
            storage_status: true,
            message: "Task found".to_string(),
        }
    }

    /// Answers a lookup that found nothing.
    pub fn missing() -> (response: TaskResponse)
        ensures
            response@ == TaskResponseView::missing(),
    {
        TaskResponse {
            success: false,
            task: None,
            storage_status: true,
            message: "Task not found".to_string(),
        }
    }

    /// Answers a create request once storage has been tried. The task is in
    /// the answer however storage went: only `storage_status` tells.
    pub fn created(task: Task, storage: &SendOutcome<bool>) -> (response: TaskResponse)
        ensures
            response@ == TaskResponseView::created(task@, storage.is_ok()),
    {
        TaskResponse {
            success: true,
            task: Some(task),
            storage_status: storage.is_ok(),
            message: "Task created successfully".to_string(),
        }
    }

    /// Answers a status update once storage has been tried.
    pub fn updated(task: Task, storage: &SendOutcome<bool>) -> (response: TaskResponse)
        ensures
            response@ == TaskResponseView::updated(task@, storage.is_ok()),
    {
        TaskResponse {
            success: true,
            task: Some(task),
            storage_status: storage.is_ok(),
            message: "Task updated successfully".to_string(),
        }
    }

    /// Answers a change that the registry turned down.
    pub fn rejected(error: RegistryError) -> (response: TaskResponse)
        ensures
            response@ == TaskResponseView::rejected(error),
    {
        let message = match error {
            RegistryError::NotFound => "Task not found".to_string(),
            RegistryError::DuplicateIdentifier => "Task identifier already in use".to_string(),
        };
        TaskResponse { success: false, task: None, storage_status: false, message }
    }
}

/// The figures that the registry reports.
#[derive(Clone, Copy, Debug, PartialEq, Eq, Structural)]
pub struct TaskManagerStats {
    pub total_tasks: u64,
    pub pending_tasks: u64,
    pub completed_tasks: u64,
    pub creation_count: u64,
    pub request_count: u64,
}

impl View for TaskManagerStats {
    type V = StatisticsView;

    open spec fn view(&self) -> StatisticsView {
        StatisticsView {
            total_tasks: self.total_tasks as nat,
            pending_tasks: self.pending_tasks as nat,
            completed_tasks: self.completed_tasks as nat,
            creation_count: self.creation_count as nat,
            request_count: self.request_count as nat,
        }
    }
}

/// What a client says on a real-time channel.
#[derive(Debug)]
pub enum WebSocketMessage {
    Subscribe { client_id: String },
    Unsubscribe,
}

/// One event on a real-time channel, as far as the registry reads it.
#[derive(Debug)]
pub enum WsEvent {
    /// Binary data: the message decoded from it, or `None` where the data
    /// is no message.
    Binary(Option<WebSocketMessage>),
    /// The connection was closed.
    Close,
    /// Any other kind of frame.
    Other,
}

impl WsEvent {
    /// The event is a well-formed subscription.
    pub open spec fn subscribes(self) -> bool {
        self matches WsEvent::Binary(Some(WebSocketMessage::Subscribe { .. }))
    }
}

/// One payload to push to one channel.
#[derive(Debug)]
pub struct WsPush {
    pub channel_id: u32,
    pub payload: Vec<u8>,
}

/// The channels that a run of pushes goes to, in order.
pub open spec fn push_channels(pushes: Seq<WsPush>) -> Seq<u32> {
    pushes.map_values(|push: WsPush| push.channel_id)
}

} // verus!
