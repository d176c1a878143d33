//! What holds of the registry over whole runs of requests.

use vstd::prelude::*;
use crate::messages::{NewTaskRequest, RegistryError, SendOutcome, TaskResponseView, WsEvent};
use crate::model::{
    TaskManagerView, distinct_ids, find, holds_id, lemma_find_at, lemma_put, lemma_put_all,
    position_of, put, with_status,
};
use crate::task::{TaskStatus, TaskView};

verus! {

/// One create request: the identifier it is served under, what the client
/// sent, and the time.
pub struct CreateCall {
    pub id: Seq<char>,
    pub request: NewTaskRequest,
    pub now: u64,
}

/// One request to the registry.
pub enum Operation {
    Create { call: CreateCall },
    GetAll,
    Get { id: Seq<char> },
    UpdateStatus { id: Seq<char>, status: TaskStatus },
    Subscribe { channel_id: u32, client_id: Seq<char>, synced: bool },
    Unsubscribe { channel_id: u32 },
    Initialize { seed: TaskView, stored: Seq<TaskView> },
    GetStatistics,
    GetByStatus { status: TaskStatus },
}

/// The registry after one request.
pub open spec fn apply(state: TaskManagerView, operation: Operation) -> TaskManagerView {
    match operation {
        Operation::Create { call } => state.create(call.id, call.request, call.now),
        Operation::GetAll => state.counted(),
        Operation::Get { id } => state.counted(),
        Operation::UpdateStatus { id, status } => state.update_status(id, status),
        Operation::Subscribe { channel_id, client_id, synced } => state.subscribe(
            channel_id,
            client_id,
            synced,
        ),
        Operation::Unsubscribe { channel_id } => state.unsubscribe(channel_id),
        Operation::Initialize { seed, stored } => state.initialize(seed, stored),
        Operation::GetStatistics => state,
        Operation::GetByStatus { status } => state,
    }
}

/// The registry after a run of requests, first to last.
pub open spec fn run(state: TaskManagerView, operations: Seq<Operation>) -> TaskManagerView
    decreases operations.len(),
{
    if operations.len() == 0 {
        state
    } else {
        apply(run(state, operations.drop_last()), operations.last())
    }
}

/// The registry after a run of create requests, first to last.
pub open spec fn create_all(state: TaskManagerView, calls: Seq<CreateCall>) -> TaskManagerView
    decreases calls.len(),
{
    if calls.len() == 0 {
        state
    } else {
        let call = calls.last();
        create_all(state, calls.drop_last()).create(call.id, call.request, call.now)
    }
}

/// The tasks that a run of create requests returns, in order.
pub open spec fn created_by(state: TaskManagerView, calls: Seq<CreateCall>) -> Seq<TaskView>
    decreases calls.len(),
{
    if calls.len() == 0 {
        Seq::empty()
    } else {
        let call = calls.last();
        let earlier = created_by(state, calls.drop_last());
        match create_all(state, calls.drop_last()).create_result(call.id, call.request, call.now) {
            Ok(task) => earlier.push(task),
            Err(_) => earlier,
        }
    }
}

/// A run of create requests appends exactly the tasks that it returns.
proof fn lemma_creates_append(state: TaskManagerView, calls: Seq<CreateCall>)
    requires
        state.wf(),
    ensures
        create_all(state, calls).wf(),
        create_all(state, calls).tasks == state.tasks + created_by(state, calls),
        forall|i: int|
            0 <= i < created_by(state, calls).len() ==> (#[trigger] created_by(
                state,
                calls,
            )[i]).status == TaskStatus::Pending,
    decreases calls.len(),
{
    if calls.len() == 0 {
        assert(state.tasks + Seq::<TaskView>::empty() =~= state.tasks);
    } else {
        let call = calls.last();
        let before = create_all(state, calls.drop_last());
        lemma_creates_append(state, calls.drop_last());
        lemma_create_keeps_wf(before, call.id, call.request, call.now);
        let earlier = created_by(state, calls.drop_last());
        if !holds_id(before.tasks, call.id) {
            let task = call.request.task(call.id, call.now);
            assert((state.tasks + earlier).push(task) =~= state.tasks + earlier.push(task));
        }
    }
}

/// A create request keeps identifiers unique.
pub proof fn lemma_create_keeps_wf(
    state: TaskManagerView,
    id: Seq<char>,
    request: NewTaskRequest,
    now: u64,
)
    requires
        state.wf(),
    ensures
        state.create(id, request, now).wf(),
{
    let after = state.create(id, request, now).tasks;
    if !holds_id(state.tasks, id) {
        assert forall|i: int, j: int| 0 <= i < j < after.len() implies after[i].id
            != after[j].id by {
            if j == state.tasks.len() {
                assert(state.tasks[i].id != id);
            }
        }
    }
}

/// A status update keeps identifiers unique and the number of tasks.
pub proof fn lemma_update_keeps_wf(state: TaskManagerView, id: Seq<char>, status: TaskStatus)
    requires
        state.wf(),
    ensures
        state.update_status(id, status).wf(),
        state.update_status(id, status).tasks.len() == state.tasks.len(),
{
    let after = state.update_status(id, status).tasks;
    if holds_id(state.tasks, id) {
        let at = position_of(state.tasks, id);
        assert forall|i: int, j: int| 0 <= i < j < after.len() implies after[i].id
            != after[j].id by {
            assert(after[i].id == state.tasks[i].id);
            assert(after[j].id == state.tasks[j].id);
        }
    }
}

/// Over any run of create requests, from any registry: every task that is
/// returned is pending, no two of them share an identifier, and none
/// carries the identifier of a task that the registry held before.
pub proof fn lemma_created_tasks_are_distinct_and_pending(
    state: TaskManagerView,
    calls: Seq<CreateCall>,
)
    requires
        state.wf(),
    ensures
        distinct_ids(created_by(state, calls)),
        forall|i: int|
            0 <= i < created_by(state, calls).len() ==> {
                &&& (#[trigger] created_by(state, calls)[i]).status == TaskStatus::Pending
                &&& !holds_id(state.tasks, created_by(state, calls)[i].id)
            },
{
    lemma_creates_append(state, calls);
    let created = created_by(state, calls);
    let all = create_all(state, calls).tasks;
    let offset = state.tasks.len() as int;
    assert forall|i: int, j: int| 0 <= i < j < created.len() implies created[i].id
        != created[j].id by {
        assert(all[offset + i] == created[i]);
        assert(all[offset + j] == created[j]);
    }
    assert forall|i: int| 0 <= i < created.len() implies !holds_id(
        state.tasks,
        (#[trigger] created[i]).id,
    ) by {
        assert(all[offset + i] == created[i]);
        if holds_id(state.tasks, created[i].id) {
            let k = position_of(state.tasks, created[i].id);
            assert(all[k] == state.tasks[k]);
            assert(all[k].id != all[offset + i].id);
        }
    }
}

/// A lookup right after a create request that returned a task answers with
/// that task: the title, description and assignee that were sent, pending.
pub proof fn lemma_get_after_create(
    state: TaskManagerView,
    id: Seq<char>,
    request: NewTaskRequest,
    now: u64,
)
    requires
        state.wf(),
        state.create_result(id, request, now) is Ok,
    ensures
        state.create(id, request, now).get(id) == TaskResponseView::found(request.task(id, now)),
        request.task(id, now).status == TaskStatus::Pending,
{
    lemma_create_keeps_wf(state, id, request, now);
    let after = state.create(id, request, now).tasks;
    assert(after[state.tasks.len() as int] == request.task(id, now));
    lemma_find_at(after, state.tasks.len() as int);
}

/// A lookup right after a status update of a task that exists answers with
/// that task at the new status, whatever status it had.
pub proof fn lemma_get_after_update(state: TaskManagerView, id: Seq<char>, status: TaskStatus)
    requires
        state.wf(),
        holds_id(state.tasks, id),
    ensures
        state.update_result(id, status) == Ok::<TaskView, RegistryError>(
            with_status(find(state.tasks, id).unwrap(), status),
        ),
        state.update_status(id, status).get(id) == TaskResponseView::found(
            with_status(find(state.tasks, id).unwrap(), status),
        ),
        state.update_status(id, status).get(id).task.unwrap().status == status,
{
    lemma_update_keeps_wf(state, id, status);
    let at = position_of(state.tasks, id);
    let after = state.update_status(id, status).tasks;
    assert(after[at].id == id);
    lemma_find_at(after, at);
}

/// A status update of a task that does not exist is turned down, and the
/// registry reports the same figures but for the counted request.
pub proof fn lemma_update_of_missing_task(state: TaskManagerView, id: Seq<char>, status: TaskStatus)
    requires
        !holds_id(state.tasks, id),
    ensures
        state.update_result(id, status) == Err::<TaskView, RegistryError>(RegistryError::NotFound),
        state.update_status(id, status) == state.counted(),
        state.update_status(id, status).statistics().total_tasks == state.statistics().total_tasks,
        state.update_status(id, status).statistics().pending_tasks
            == state.statistics().pending_tasks,
        state.update_status(id, status).statistics().completed_tasks
            == state.statistics().completed_tasks,
{
}

/// One request keeps the registry well formed, loses no task and lowers no
/// counter.
pub proof fn lemma_apply_keeps_invariants(state: TaskManagerView, operation: Operation)
    requires
        state.wf(),
    ensures
        apply(state, operation).wf(),
        apply(state, operation).tasks.len() >= state.tasks.len(),
        apply(state, operation).request_count >= state.request_count,
        apply(state, operation).creation_count >= state.creation_count,
{
    match operation {
        Operation::Create { call } => {
            lemma_create_keeps_wf(state, call.id, call.request, call.now);
        },
        Operation::UpdateStatus { id, status } => {
            lemma_update_keeps_wf(state, id, status);
        },
        Operation::Initialize { seed, stored } => {
            lemma_put(state.tasks, seed);
            lemma_put_all(put(state.tasks, seed), stored);
        },
        _ => {},
    }
}

/// After any run of requests, from any registry: identifiers are unique,
/// the reported total is the length of the full listing, and neither the
/// number of tasks nor a counter has gone down.
pub proof fn lemma_run_keeps_invariants(state: TaskManagerView, operations: Seq<Operation>)
    requires
        state.wf(),
    ensures
        run(state, operations).wf(),
        run(state, operations).statistics().total_tasks == run(state, operations).tasks.len(),
        run(state, operations).statistics().total_tasks >= state.statistics().total_tasks,
        run(state, operations).request_count >= state.request_count,
        run(state, operations).creation_count >= state.creation_count,
    decreases operations.len(),
{
    if operations.len() > 0 {
        lemma_run_keeps_invariants(state, operations.drop_last());
        lemma_apply_keeps_invariants(run(state, operations.drop_last()), operations.last());
    }
}

/// A channel that subscribed is told of a task created afterwards.
pub proof fn lemma_subscriber_hears_of_create(
    state: TaskManagerView,
    channel_id: u32,
    client_id: Seq<char>,
    synced: bool,
    call: CreateCall,
)
    ensures
        state.subscribe(channel_id, client_id, synced).create(
            call.id,
            call.request,
            call.now,
        ).broadcast_targets().contains(channel_id),
{
}

/// A channel that unsubscribed is not told of a task created afterwards.
pub proof fn lemma_unsubscribed_hears_nothing(
    state: TaskManagerView,
    channel_id: u32,
    call: CreateCall,
)
    ensures
        !state.unsubscribe(channel_id).create(
            call.id,
            call.request,
            call.now,
        ).broadcast_targets().contains(channel_id),
{
}

/// Where storage did not take a created task, the answer still carries the
/// task and reports success, with the storage flag down.
pub proof fn lemma_failed_storage_keeps_task(task: TaskView, storage: SendOutcome<bool>)
    requires
        !(storage is Success),
    ensures
        TaskResponseView::created(task, storage.is_ok()).success,
        TaskResponseView::created(task, storage.is_ok()).task == Some(task),
        !TaskResponseView::created(task, storage.is_ok()).storage_status,
{
}

/// Entering a channel twice under the same client is entering it once, as
/// far as the directory goes.
pub proof fn lemma_subscribe_is_idempotent(
    state: TaskManagerView,
    channel_id: u32,
    client_id: Seq<char>,
    synced: bool,
)
    ensures
        state.subscribe(channel_id, client_id, synced).subscribe(
            channel_id,
            client_id,
            synced,
        ).subscribers == state.subscribe(channel_id, client_id, synced).subscribers,
        state.subscribe(channel_id, client_id, synced).subscribers[channel_id] == client_id,
{
    let once = state.subscribe(channel_id, client_id, synced).subscribers;
    assert(once.insert(channel_id, client_id) =~= once);
}

/// Taking out a channel that is not in the directory changes nothing.
pub proof fn lemma_unsubscribe_of_absent_channel(state: TaskManagerView, channel_id: u32)
    requires
        !state.subscribers.contains_key(channel_id),
    ensures
        state.unsubscribe(channel_id) == state,
{
    assert(state.subscribers.remove(channel_id) =~= state.subscribers);
}

/// After a connection was closed its channel is not in the directory, and
/// every other channel is in it as before.
pub proof fn lemma_closed_channel_is_gone(state: TaskManagerView, channel_id: u32, synced: bool)
    ensures
        !state.handle_websocket(channel_id, WsEvent::Close, synced).subscribers.contains_key(
            channel_id,
        ),
        forall|other: u32|
            other != channel_id ==> (#[trigger] state.handle_websocket(
                channel_id,
                WsEvent::Close,
                synced,
            ).subscribers.contains_key(other) <==> state.subscribers.contains_key(other)),
{
}

} // verus!
