//! A task registry with subscriber fan-out and best-effort replication.
//!
//! The registry owns the tasks of one session, a directory of real-time
//! channels that want to hear of every change, and two counters. Every
//! operation is stated over [`model::TaskManagerView`], the mathematical
//! value of the state.

pub mod identifier;
pub mod laws;
pub mod messages;
pub mod model;
pub mod registry;
pub mod storage;
pub mod task;

pub use messages::{
    NewTaskRequest, RegistryError, SendOutcome, TaskManagerStats, TaskResponse,
    TaskStatusUpdateRequest, WebSocketMessage, WsEvent, WsPush,
};
pub use registry::TaskManagerState;
pub use task::{Task, TaskStatus};
