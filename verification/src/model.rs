//! The mathematical value of the registry and what each operation does to it.

use vstd::prelude::*;
use crate::messages::{
    NewTaskRequest, RegistryError, TaskResponseView, WebSocketMessage, WsEvent,
};
use crate::task::{Task, TaskStatus, TaskView, task_views};

verus! {

/// The value of the whole state: the tasks in the order in which they were
/// first stored, the subscribed channels with their client identifiers, and
/// the two counters.
pub struct TaskManagerView {
    pub tasks: Seq<TaskView>,
    pub subscribers: Map<u32, Seq<char>>,
    pub request_count: nat,
    pub creation_count: nat,
}

/// The per-status figures of a registry.
pub struct StatisticsView {
    pub total_tasks: nat,
    pub pending_tasks: nat,
    pub completed_tasks: nat,
    pub creation_count: nat,
    pub request_count: nat,
}

/// No two tasks share an identifier.
pub open spec fn distinct_ids(tasks: Seq<TaskView>) -> bool {
    forall|i: int, j: int| 0 <= i < j < tasks.len() ==> tasks[i].id != tasks[j].id
}

/// Some task carries the identifier.
pub open spec fn holds_id(tasks: Seq<TaskView>, id: Seq<char>) -> bool {
    exists|i: int| 0 <= i < tasks.len() && tasks[i].id == id
}

/// An index at which the identifier stands, where some task carries it.
pub open spec fn position_of(tasks: Seq<TaskView>, id: Seq<char>) -> int {
    choose|i: int| 0 <= i < tasks.len() && tasks[i].id == id
}

/// The task that carries the identifier, if any.
pub open spec fn find(tasks: Seq<TaskView>, id: Seq<char>) -> Option<TaskView> {
    if holds_id(tasks, id) {
        Some(tasks[position_of(tasks, id)])
    } else {
        None
    }
}

/// Stores a task under its identifier: in the place of the task that carried
/// it, or at the end.
pub open spec fn put(tasks: Seq<TaskView>, task: TaskView) -> Seq<TaskView> {
    if holds_id(tasks, task.id) {
        tasks.update(position_of(tasks, task.id), task)
    } else {
        tasks.push(task)
    }
}

/// Stores each task of `more` in turn, first to last.
pub open spec fn put_all(tasks: Seq<TaskView>, more: Seq<TaskView>) -> Seq<TaskView>
    decreases more.len(),
{
    if more.len() == 0 {
        tasks
    } else {
        put(put_all(tasks, more.drop_last()), more.last())
    }
}

/// The task that every registry starts with.
pub open spec fn seed_task(id: Seq<char>, now: u64) -> TaskView {
    TaskView {
        id,
        title: "Welcome Task"@,
        description: "This is your first task!"@,
        status: TaskStatus::Pending,
        created_at: now,
        assigned_to: None,
    }
}

/// The tasks that storage gave back; none where it failed.
pub open spec fn stored_views(stored: Result<Vec<Task>, String>) -> Seq<TaskView> {
    match stored {
        Ok(tasks) => task_views(tasks@),
        Err(_) => Seq::empty(),
    }
}

/// The directory after the entries were entered in turn, first to last.
pub open spec fn entered(entries: Seq<(u32, String)>) -> Map<u32, Seq<char>>
    decreases entries.len(),
{
    if entries.len() == 0 {
        Map::empty()
    } else {
        entered(entries.drop_last()).insert(entries.last().0, entries.last().1@)
    }
}

/// The same task with another status.
pub open spec fn with_status(task: TaskView, status: TaskStatus) -> TaskView {
    TaskView { status, ..task }
}

/// The test "stands at `status`".
pub open spec fn has_status(status: TaskStatus) -> spec_fn(TaskView) -> bool {
    |task: TaskView| task.status == status
}

impl TaskManagerView {
    /// No task, no subscriber, both counters at zero.
    pub open spec fn empty() -> TaskManagerView {
        TaskManagerView {
            tasks: Seq::empty(),
            subscribers: Map::empty(),
            request_count: 0,
            creation_count: 0,
        }
    }

    /// The registry put together from its parts: the tasks stored in turn
    /// and the connections entered in turn.
    pub open spec fn restored(
        tasks: Seq<TaskView>,
        connections: Seq<(u32, String)>,
        request_count: nat,
        creation_count: nat,
    ) -> TaskManagerView {
        TaskManagerView {
            tasks: put_all(Seq::empty(), tasks),
            subscribers: entered(connections),
            request_count,
            creation_count,
        }
    }

    /// Identifiers are unique and the directory is finite.
    pub open spec fn wf(self) -> bool {
        &&& distinct_ids(self.tasks)
        &&& self.subscribers.dom().finite()
    }

    /// One more request served, nothing else changed.
    pub open spec fn counted(self) -> TaskManagerView {
        TaskManagerView { request_count: self.request_count + 1, ..self }
    }

    /// A create request under the identifier `id` at the time `now`: the
    /// request is counted; the new task is appended and the creation counted
    /// unless the identifier is taken.
    pub open spec fn create(self, id: Seq<char>, request: NewTaskRequest, now: u64)
        -> TaskManagerView {
        if holds_id(self.tasks, id) {
            self.counted()
        } else {
            TaskManagerView {
                tasks: self.tasks.push(request.task(id, now)),
                request_count: self.request_count + 1,
                creation_count: self.creation_count + 1,
                ..self
            }
        }
    }

    /// What that create request returns: the new task, or the word that
    /// the identifier is taken.
    pub open spec fn create_result(self, id: Seq<char>, request: NewTaskRequest, now: u64)
        -> Result<TaskView, RegistryError> {
        if holds_id(self.tasks, id) {
            Err(RegistryError::DuplicateIdentifier)
        } else {
            Ok(request.task(id, now))
        }
    }

    /// The answer to a lookup of `id`.
    pub open spec fn get(self, id: Seq<char>) -> TaskResponseView {
        match find(self.tasks, id) {
            Some(task) => TaskResponseView::found(task),
            None => TaskResponseView::missing(),
        }
    }

    /// A status update: the request is counted; the task that carries `id`,
    /// if any, stands at `status` afterwards, whatever it stood at.
    pub open spec fn update_status(self, id: Seq<char>, status: TaskStatus) -> TaskManagerView {
        if holds_id(self.tasks, id) {
            let at = position_of(self.tasks, id);
            TaskManagerView {
                tasks: self.tasks.update(at, with_status(self.tasks[at], status)),
                request_count: self.request_count + 1,
                ..self
            }
        } else {
            self.counted()
        }
    }

    /// What that status update returns: the task as it stands afterwards, or
    /// the word that there is none.
    pub open spec fn update_result(self, id: Seq<char>, status: TaskStatus) -> Result<
        TaskView,
        RegistryError,
    > {
        match find(self.tasks, id) {
            Some(task) => Ok(with_status(task, status)),
            None => Err(RegistryError::NotFound),
        }
    }

    /// Start-up: the seed task is stored, then every task that came back
    /// from storage. Counters stay.
    pub open spec fn initialize(self, seed: TaskView, stored: Seq<TaskView>) -> TaskManagerView {
        TaskManagerView { tasks: put_all(put(self.tasks, seed), stored), ..self }
    }

    /// The channel is entered under the client's identifier. Where the
    /// initial list can be pushed, taking it counts as a request.
    pub open spec fn subscribe(self, channel_id: u32, client_id: Seq<char>, synced: bool)
        -> TaskManagerView {
        TaskManagerView {
            subscribers: self.subscribers.insert(channel_id, client_id),
            request_count: if synced {
                self.request_count + 1
            } else {
                self.request_count
            },
            ..self
        }
    }

    /// The channel leaves the directory, if it was there.
    pub open spec fn unsubscribe(self, channel_id: u32) -> TaskManagerView {
        TaskManagerView { subscribers: self.subscribers.remove(channel_id), ..self }
    }

    /// One event on a channel: a subscription enters the channel, an
    /// unsubscription or a close takes it out, anything else changes nothing.
    pub open spec fn handle_websocket(self, channel_id: u32, event: WsEvent, synced: bool)
        -> TaskManagerView {
        match event {
            WsEvent::Binary(Some(WebSocketMessage::Subscribe { client_id })) => self.subscribe(
                channel_id,
                client_id@,
                synced,
            ),
            WsEvent::Binary(Some(WebSocketMessage::Unsubscribe)) => self.unsubscribe(channel_id),
            WsEvent::Binary(None) => self,
            WsEvent::Close => self.unsubscribe(channel_id),
            WsEvent::Other => self,
        }
    }

    /// The channels that a change is announced to.
    pub open spec fn broadcast_targets(self) -> Set<u32> {
        self.subscribers.dom()
    }

    /// The tasks that stand at `status`, in order.
    pub open spec fn by_status(self, status: TaskStatus) -> Seq<TaskView> {
        self.tasks.filter(has_status(status))
    }

    /// The figures, counted over all tasks.
    pub open spec fn statistics(self) -> StatisticsView {
        StatisticsView {
            total_tasks: self.tasks.len(),
            pending_tasks: self.by_status(TaskStatus::Pending).len(),
            completed_tasks: self.by_status(TaskStatus::Completed).len(),
            creation_count: self.creation_count,
            request_count: self.request_count,
        }
    }
}

/// Where identifiers are unique, the task found under an identifier is the
/// one at any index that carries it.
pub proof fn lemma_find_at(tasks: Seq<TaskView>, at: int)
    requires
        distinct_ids(tasks),
        0 <= at < tasks.len(),
    ensures
        holds_id(tasks, tasks[at].id),
        position_of(tasks, tasks[at].id) == at,
        find(tasks, tasks[at].id) == Some(tasks[at]),
{
    let id = tasks[at].id;
    assert(holds_id(tasks, id));
    let chosen = position_of(tasks, id);
    assert(0 <= chosen < tasks.len() && tasks[chosen].id == id);
    if chosen < at {
        assert(tasks[chosen].id != tasks[at].id);
    } else if at < chosen {
        assert(tasks[at].id != tasks[chosen].id);
    }
}

/// Storing a task keeps identifiers unique, and the task is then found
/// under its identifier.
pub proof fn lemma_put(tasks: Seq<TaskView>, task: TaskView)
    requires
        distinct_ids(tasks),
    ensures
        distinct_ids(put(tasks, task)),
        find(put(tasks, task), task.id) == Some(task),
        put(tasks, task).len() >= tasks.len(),
{
    let after = put(tasks, task);
    if holds_id(tasks, task.id) {
        let at = position_of(tasks, task.id);
        assert(0 <= at < tasks.len() && tasks[at].id == task.id);
        assert forall|i: int, j: int| 0 <= i < j < after.len() implies after[i].id
            != after[j].id by {
            assert(after[i].id == tasks[i].id);
            assert(after[j].id == tasks[j].id);
        }
        assert(after[at] == task);
        lemma_find_at(after, at);
    } else {
        assert forall|i: int, j: int| 0 <= i < j < after.len() implies after[i].id
            != after[j].id by {
            if j == tasks.len() {
                assert(tasks[i].id != task.id);
            }
        }
        assert(after[tasks.len() as int] == task);
        lemma_find_at(after, tasks.len() as int);
    }
}

/// Storing a run of tasks keeps identifiers unique and loses no task.
pub proof fn lemma_put_all(tasks: Seq<TaskView>, more: Seq<TaskView>)
    requires
        distinct_ids(tasks),
    ensures
        distinct_ids(put_all(tasks, more)),
        put_all(tasks, more).len() >= tasks.len(),
    decreases more.len(),
{
    if more.len() > 0 {
        lemma_put_all(tasks, more.drop_last());
        lemma_put(put_all(tasks, more.drop_last()), more.last());
    }
}

/// Storing a run of tasks keeps every identifier that was there.
pub proof fn lemma_put_all_keeps_ids(tasks: Seq<TaskView>, more: Seq<TaskView>, id: Seq<char>)
    requires
        holds_id(tasks, id),
    ensures
        holds_id(put_all(tasks, more), id),
    decreases more.len(),
{
    if more.len() > 0 {
        lemma_put_all_keeps_ids(tasks, more.drop_last(), id);
        let before = put_all(tasks, more.drop_last());
        let after = put(before, more.last());
        let at = choose|i: int| 0 <= i < before.len() && before[i].id == id;
        assert(after[at].id == id);
    }
}

/// After start-up some task carries the seed's identifier.
pub proof fn lemma_initialize_keeps_seed(
    state: TaskManagerView,
    seed: TaskView,
    stored: Seq<TaskView>,
)
    requires
        state.wf(),
    ensures
        find(state.initialize(seed, stored).tasks, seed.id) is Some,
{
    lemma_put(state.tasks, seed);
    lemma_put_all_keeps_ids(put(state.tasks, seed), stored, seed.id);
}

} // verus!
