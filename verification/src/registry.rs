//! The registry: tasks, subscribers and counters behind one owner.

use vstd::prelude::*;
use std::collections::HashMap;
use vstd::std_specs::hash::{spec_hash_map_iter, spec_keys_iter};
use vstd::std_specs::iter::IteratorSpec;
use crate::identifier::{fresh_identifier, is_hyphenated_uuid};
use crate::messages::{
    NewTaskRequest, RegistryError, TaskManagerStats, TaskResponse, TaskStatusUpdateRequest,
    WebSocketMessage, WsEvent, WsPush, push_channels, task_result_view,
};
use crate::model::{
    TaskManagerView, entered, find, has_status, holds_id, lemma_find_at,
    lemma_initialize_keeps_seed, lemma_put, position_of, put, put_all, seed_task, stored_views,
    with_status,
};
use crate::task::{Task, TaskStatus, TaskView, task_views};

verus! {

/// The state of one task manager. Tasks are kept in the order in which
/// their identifiers were first stored.
#[derive(Debug)]
pub struct TaskManagerState {
    tasks: Vec<Task>,
    active_ws_connections: HashMap<u32, String>,
    request_count: u64,
    task_creation_count: u64,
}

impl View for TaskManagerState {
    type V = TaskManagerView;

    closed spec fn view(&self) -> TaskManagerView {
        TaskManagerView {
            tasks: task_views(self.tasks@),
            subscribers: self.active_ws_connections@.map_values(|client: String| client@),
            request_count: self.request_count as nat,
            creation_count: self.task_creation_count as nat,
        }
    }
}

impl Default for TaskManagerState {
    fn default() -> (state: TaskManagerState)
        ensures
            state@ == TaskManagerView::empty(),
            state@.wf(),
    {
        TaskManagerState::new()
    }
}

impl TaskManagerState {
    /// An empty registry.
    pub fn new() -> (state: TaskManagerState)
        ensures
            state@ == TaskManagerView::empty(),
            state@.wf(),
    {
        let state = TaskManagerState {
            tasks: Vec::new(),
            active_ws_connections: HashMap::new(),
            request_count: 0,
            task_creation_count: 0,
        };
        assert(state@.tasks =~= Seq::empty());
        assert(state@.subscribers =~= Map::empty());
        state
    }

    /// The registry that holds the given parts: the tasks stored in turn,
    /// each in the place of any earlier task with its identifier; the
    /// connections entered in turn, a later entry for a channel in place of
    /// an earlier one; and the counters as given.
    pub fn from_parts(
        tasks: Vec<Task>,
        connections: Vec<(u32, String)>,
        request_count: u64,
        task_creation_count: u64,
    ) -> (state: TaskManagerState)
        ensures
            state@.wf(),
            state@ == TaskManagerView::restored(
                task_views(tasks@),
                connections@,
                request_count as nat,
                task_creation_count as nat,
            ),
    {
        broadcast use vstd::std_specs::hash::group_hash_axioms;

        let mut state = TaskManagerState {
            tasks: Vec::new(),
            active_ws_connections: HashMap::new(),
            request_count,
            task_creation_count,
        };
        assert(state@.tasks =~= Seq::empty());
        assert(state@.subscribers =~= Map::empty());
        assert(task_views(tasks@).take(0) =~= Seq::empty());
        let mut i: usize = 0;
        while i < tasks.len()
            invariant
                i <= tasks.len(),
                state@.wf(),
                state@ == (TaskManagerView {
                    tasks: put_all(Seq::empty(), task_views(tasks@).take(i as int)),
                    subscribers: Map::empty(),
                    request_count: request_count as nat,
                    creation_count: task_creation_count as nat,
                }),
            decreases tasks.len() - i,
        {
            proof {
                let next = task_views(tasks@).take(i + 1);
                assert(next.drop_last() =~= task_views(tasks@).take(i as int));
                assert(next.last() == tasks@[i as int]@);
            }
            state.store(tasks[i].clone());
            i += 1;
        }
        assert(task_views(tasks@).take(i as int) =~= task_views(tasks@));
        let ghost stored = state@.tasks;
        assert(connections@.take(0) =~= Seq::empty());
        let mut j: usize = 0;
        while j < connections.len()
            invariant
                j <= connections.len(),
                state@.wf(),
                state@ == (TaskManagerView {
                    tasks: stored,
                    subscribers: entered(connections@.take(j as int)),
                    request_count: request_count as nat,
                    creation_count: task_creation_count as nat,
                }),
            decreases connections.len() - j,
        {
            proof {
                let next = connections@.take(j + 1);
                assert(next.drop_last() =~= connections@.take(j as int));
                assert(next.last() == connections@[j as int]);
            }
            let ghost before = state@.subscribers;
            state.active_ws_connections.insert(connections[j].0, connections[j].1.clone());
            assert(state@.subscribers =~= before.insert(
                connections@[j as int].0,
                connections@[j as int].1@,
            ));
            j += 1;
        }
        assert(connections@.take(j as int) =~= connections@);
        state
    }

    /// Start-up with the seed task under a fresh identifier. Whatever
    /// identifier the generator hands out, the rest is
    /// [`Self::initialize_with_id`].
    pub fn initialize(
        &mut self,
        now: u64,
        stored: Result<Vec<Task>, String>,
    ) -> (report: Result<usize, String>)
        requires
            old(self)@.wf(),
        ensures
            final(self)@.wf(),
            exists|seed_id: Seq<char>|
                is_hyphenated_uuid(seed_id) && #[trigger] find(final(self)@.tasks, seed_id)
                    is Some && final(self)@ == old(self)@.initialize(
                    seed_task(seed_id, now),
                    stored_views(stored),
                ),
            match stored {
                Ok(tasks) => report == Ok::<usize, String>(tasks.len()),
                Err(failure) => report == Err::<usize, String>(failure),
            },
    {
        let seed_id = fresh_identifier();
        let ghost id = seed_id@;
        let report = self.initialize_with_id(seed_id, now, stored);
        proof {
            lemma_initialize_keeps_seed(old(self)@, seed_task(id, now), stored_views(stored));
        }
        report
    }

    /// Start-up with the seed task under the identifier `seed_id`: the seed
    /// is stored, then every task that storage gave back, each in the place
    /// of any task with its identifier. Where storage failed the registry
    /// holds the seed and what it held before, and the failure is the
    /// result; otherwise the result is the number of tasks that came back.
    /// Counters stay.
    pub fn initialize_with_id(
        &mut self,
        seed_id: String,
        now: u64,
        stored: Result<Vec<Task>, String>,
    ) -> (report: Result<usize, String>)
        requires
            old(self)@.wf(),
        ensures
            final(self)@.wf(),
            final(self)@ == old(self)@.initialize(seed_task(seed_id@, now), stored_views(stored)),
            match stored {
                Ok(tasks) => report == Ok::<usize, String>(tasks.len()),
                Err(failure) => report == Err::<usize, String>(failure),
            },
    {
        let seed = Task {
            id: seed_id,
            title: "Welcome Task".to_string(),
            description: "This is your first task!".to_string(),
            status: TaskStatus::Pending,
            created_at: now,
            assigned_to: None,
        };
        self.store(seed);
        match stored {
            Ok(tasks) => {
                let ghost seeded = self@.tasks;
                let mut i: usize = 0;
                assert(task_views(tasks@).take(0) =~= Seq::empty());
                while i < tasks.len()
                    invariant
                        i <= tasks.len(),
                        self@.wf(),
                        self@ == (TaskManagerView {
                            tasks: put_all(seeded, task_views(tasks@).take(i as int)),
                            ..old(self)@
                        }),
                    decreases tasks.len() - i,
                {
                    proof {
                        let next = task_views(tasks@).take(i + 1);
                        assert(next.drop_last() =~= task_views(tasks@).take(i as int));
                        assert(next.last() == tasks@[i as int]@);
                    }
                    self.store(tasks[i].clone());
                    i += 1;
                }
                assert(task_views(tasks@).take(i as int) =~= task_views(tasks@));
                Ok(tasks.len())
            },
            Err(failure) => Err(failure),
        }
    }

    /// Creates a task under a fresh identifier. Whatever identifier the
    /// generator hands out, the rest is [`Self::create_task_with_id`]: the
    /// request fails only where a task already carries that identifier.
    pub fn create_task(
        &mut self,
        new_task_req: NewTaskRequest,
        now: u64,
    ) -> (created: Result<Task, RegistryError>)
        requires
            old(self)@.wf(),
            old(self)@.request_count < u64::MAX,
            old(self)@.creation_count < u64::MAX,
        ensures
            final(self)@.wf(),
            match created {
                Ok(task) => {
                    &&& is_hyphenated_uuid(task@.id)
                    &&& old(self)@.create_result(task@.id, new_task_req, now)
                        == Ok::<TaskView, RegistryError>(task@)
                    &&& final(self)@ == old(self)@.create(task@.id, new_task_req, now)
                },
                Err(error) => {
                    &&& error == RegistryError::DuplicateIdentifier
                    &&& final(self)@ == old(self)@.counted()
                    &&& exists|i: int|
                        0 <= i < old(self)@.tasks.len() && is_hyphenated_uuid(
                            (#[trigger] old(self)@.tasks[i]).id,
                        )
                },
            },
    {
        let task_id = fresh_identifier();
        self.create_task_with_id(task_id, new_task_req, now)
    }

    /// Creates a task under the identifier `task_id`, pending and stamped
    /// `now`. The request is counted in any case. Where a task already
    /// carries the identifier nothing is stored and the error says so.
    pub fn create_task_with_id(
        &mut self,
        task_id: String,
        new_task_req: NewTaskRequest,
        now: u64,
    ) -> (created: Result<Task, RegistryError>)
        requires
            old(self)@.wf(),
            old(self)@.request_count < u64::MAX,
            old(self)@.creation_count < u64::MAX,
        ensures
            final(self)@.wf(),
            final(self)@ == old(self)@.create(task_id@, new_task_req, now),
            task_result_view(created) == old(self)@.create_result(task_id@, new_task_req, now),
    {
        self.request_count += 1;
        if self.index_of(&task_id).is_some() {
            return Err(RegistryError::DuplicateIdentifier);
        }
        let task = Task {
            id: task_id,
            title: new_task_req.title,
            description: new_task_req.description,
            status: TaskStatus::Pending,
            created_at: now,
            assigned_to: new_task_req.assigned_to,
        };
        self.tasks.push(task.clone());
        self.task_creation_count += 1;
        proof {
            let before = old(self)@.tasks;
            let after = self@.tasks;
            assert(after =~= before.push(task@));
            assert forall|i: int, j: int| 0 <= i < j < after.len() implies after[i].id
                != after[j].id by {
                if j == before.len() {
                    assert(before[i].id != task@.id);
                }
            }
        }
        Ok(task)
    }

    /// Every task, in order. Counts as a request.
    pub fn get_all_tasks(&mut self) -> (all: Vec<Task>)
        requires
            old(self)@.wf(),
            old(self)@.request_count < u64::MAX,
        ensures
            final(self)@.wf(),
            final(self)@ == old(self)@.counted(),
            task_views(all@) == old(self)@.tasks,
    {
        self.request_count += 1;
        self.tasks()
    }

    /// The task that carries `task_id`, or the answer that there is none.
    /// Counts as a request either way.
    pub fn get_task(&mut self, task_id: String) -> (response: TaskResponse)
        requires
            old(self)@.wf(),
            old(self)@.request_count < u64::MAX,
        ensures
            final(self)@.wf(),
            final(self)@ == old(self)@.counted(),
            response@ == old(self)@.get(task_id@),
    {
        self.request_count += 1;
        match self.index_of(&task_id) {
            Some(at) => TaskResponse::found(self.tasks[at].clone()),
            None => TaskResponse::missing(),
        }
    }

    /// Moves the task that carries the identifier to the new status, from
    /// whatever status it had. Counts as a request; where no task carries
    /// the identifier nothing else changes.
    pub fn update_task_status(
        &mut self,
        update_req: TaskStatusUpdateRequest,
    ) -> (updated: Result<Task, RegistryError>)
        requires
            old(self)@.wf(),
            old(self)@.request_count < u64::MAX,
        ensures
            final(self)@.wf(),
            final(self)@ == old(self)@.update_status(update_req.task_id@, update_req.new_status),
            task_result_view(updated) == old(self)@.update_result(
                update_req.task_id@,
                update_req.new_status,
            ),
    {
        self.request_count += 1;
        match self.index_of(&update_req.task_id) {
            Some(at) => {
                self.tasks[at].status = update_req.new_status;
                let task = self.tasks[at].clone();
                proof {
                    let before = old(self)@.tasks;
                    let after = self@.tasks;
                    assert(after =~= before.update(
                        at as int,
                        with_status(before[at as int], update_req.new_status),
                    ));
                    assert forall|i: int, j: int| 0 <= i < j < after.len() implies after[i].id
                        != after[j].id by {
                        assert(after[i].id == before[i].id);
                        assert(after[j].id == before[j].id);
                    }
                }
                Ok(task)
            },
            None => Err(RegistryError::NotFound),
        }
    }

    /// The figures of the registry, counted over all tasks at the time of
    /// the call. Changes nothing, the request counter included.
    pub fn get_statistics(&mut self) -> (stats: TaskManagerStats)
        ensures
            final(self)@ == old(self)@,
            stats@ == old(self)@.statistics(),
    {
        TaskManagerStats {
            total_tasks: self.tasks.len() as u64,
            pending_tasks: self.count_by_status(TaskStatus::Pending),
            completed_tasks: self.count_by_status(TaskStatus::Completed),
            creation_count: self.task_creation_count,
            request_count: self.request_count,
        }
    }

    /// The tasks that stand at `status`, in order. Changes nothing, the
    /// request counter included.
    pub fn get_tasks_by_status(&mut self, status: TaskStatus) -> (matching: Vec<Task>)
        ensures
            final(self)@ == old(self)@,
            task_views(matching@) == old(self)@.by_status(status),
    {
        let mut matching: Vec<Task> = Vec::new();
        let mut i: usize = 0;
        proof {
            reveal(Seq::filter);
            assert(self@.tasks.take(0) =~= Seq::empty());
            assert(task_views(matching@) =~= Seq::empty());
        }
        while i < self.tasks.len()
            invariant
                i <= self.tasks.len(),
                *self == *old(self),
                task_views(matching@) == self@.tasks.take(i as int).filter(has_status(status)),
            decreases self.tasks.len() - i,
        {
            proof {
                let seen = self@.tasks.take(i as int);
                seen.lemma_filter_push(self@.tasks[i as int], has_status(status));
                assert(self@.tasks.take(i + 1) =~= seen.push(self@.tasks[i as int]));
            }
            if self.tasks[i].status == status {
                let ghost before = task_views(matching@);
                matching.push(self.tasks[i].clone());
                assert(task_views(matching@) =~= before.push(self@.tasks[i as int]));
            }
            i += 1;
        }
        assert(self@.tasks.take(i as int) =~= self@.tasks);
        matching
    }

    /// Reads one event on a real-time channel. A subscription is entered
    /// and answered as in [`Self::subscribe`]; an unsubscription or a closed
    /// connection takes the channel out; binary data that is no message and
    /// every other kind of frame change nothing.
    pub fn handle_websocket(
        &mut self,
        channel_id: u32,
        event: WsEvent,
        server_available: bool,
    ) -> (sync: Option<Vec<Task>>)
        requires
            old(self)@.wf(),
            event.subscribes() && server_available ==> old(self)@.request_count < u64::MAX,
        ensures
            final(self)@.wf(),
            final(self)@ == old(self)@.handle_websocket(channel_id, event, server_available),
            match sync {
                Some(all) => {
                    &&& event.subscribes()
                    &&& server_available
                    &&& task_views(all@) == old(self)@.tasks
                },
                None => !(event.subscribes() && server_available),
            },
    {
        match event {
            WsEvent::Binary(Some(WebSocketMessage::Subscribe { client_id })) => self.subscribe(
                channel_id,
                client_id,
                server_available,
            ),
            WsEvent::Binary(Some(WebSocketMessage::Unsubscribe)) => {
                self.unsubscribe(channel_id);
                None
            },
            WsEvent::Binary(None) => None,
            WsEvent::Close => {
                self.unsubscribe(channel_id);
                None
            },
            WsEvent::Other => None,
        }
    }

    /// Enters the channel under the client's identifier, in place of any
    /// earlier entry. Where `server_available`, the result is the list of
    /// all tasks, to be pushed to this channel alone, and taking it counts
    /// as a request; otherwise there is nothing to push.
    pub fn subscribe(
        &mut self,
        channel_id: u32,
        client_id: String,
        server_available: bool,
    ) -> (sync: Option<Vec<Task>>)
        requires
            old(self)@.wf(),
            server_available ==> old(self)@.request_count < u64::MAX,
        ensures
            final(self)@.wf(),
            final(self)@ == old(self)@.subscribe(channel_id, client_id@, server_available),
            match sync {
                Some(all) => server_available && task_views(all@) == old(self)@.tasks,
                None => !server_available,
            },
    {
        broadcast use vstd::std_specs::hash::group_hash_axioms;

        self.active_ws_connections.insert(channel_id, client_id);
        assert(self@.subscribers =~= old(self)@.subscribers.insert(channel_id, client_id@));
        if server_available {
            Some(self.get_all_tasks())
        } else {
            None
        }
    }

    /// Takes the channel out of the directory. Nothing happens where it is
    /// not in it.
    pub fn unsubscribe(&mut self, channel_id: u32)
        requires
            old(self)@.wf(),
        ensures
            final(self)@.wf(),
            final(self)@ == old(self)@.unsubscribe(channel_id),
    {
        broadcast use vstd::std_specs::hash::group_hash_axioms;

        self.active_ws_connections.remove(&channel_id);
        assert(self@.subscribers =~= old(self)@.subscribers.remove(channel_id));
    }

    /// The pushes that tell every subscriber of a change: one for each
    /// subscribed channel, each with the payload `task_json`. The order of
    /// the channels is left open.
    pub fn broadcast_task_update(&self, task_json: &Vec<u8>) -> (pushes: Vec<WsPush>)
        requires
            self@.wf(),
        ensures
            push_channels(pushes@).no_duplicates(),
            push_channels(pushes@).to_set() == self@.broadcast_targets(),
            forall|i: int| 0 <= i < pushes.len() ==> (#[trigger] pushes[i]).payload@ == task_json@,
    {
        broadcast use vstd::std_specs::hash::group_hash_axioms;

        let mut pushes: Vec<WsPush> = Vec::new();
        for channel_id in keys: self.active_ws_connections.keys()
            invariant
                pushes.len() == keys.index(),
                forall|i: int|
                    0 <= i < pushes.len() ==> (#[trigger] pushes[i]).channel_id == *keys.seq()[i],
                forall|i: int|
                    0 <= i < pushes.len() ==> (#[trigger] pushes[i]).payload@ == task_json@,
        {
            pushes.push(WsPush { channel_id: *channel_id, payload: task_json.clone() });
        }
        proof {
            let all = spec_keys_iter(&self.active_ws_connections).remaining();
            assert(push_channels(pushes@) =~= all.unref());
        }
        pushes
    }

    /// A copy of every task, in order. Unlike [`Self::get_all_tasks`] this
    /// is no request: nothing is counted.
    pub fn tasks(&self) -> (all: Vec<Task>)
        ensures
            task_views(all@) == self@.tasks,
    {
        let mut all: Vec<Task> = Vec::new();
        let mut i: usize = 0;
        while i < self.tasks.len()
            invariant
                i <= self.tasks.len(),
                all@ == self.tasks@.take(i as int),
            decreases self.tasks.len() - i,
        {
            all.push(self.tasks[i].clone());
            i += 1;
            assert(all@ =~= self.tasks@.take(i as int));
        }
        assert(self.tasks@.take(i as int) =~= self.tasks@);
        all
    }

    /// The subscribed channels, each with its client identifier. The order
    /// is left open.
    pub fn connections(&self) -> (entries: Vec<(u32, String)>)
        requires
            self@.wf(),
        ensures
            entries.len() == self@.subscribers.len(),
            forall|i: int|
                0 <= i < entries.len() ==> self@.subscribers.contains_pair(
                    (#[trigger] entries[i]).0,
                    entries[i].1@,
                ),
            forall|channel_id: u32| #[trigger]
                self@.subscribers.contains_key(channel_id) ==> exists|i: int|
                    0 <= i < entries.len() && (#[trigger] entries[i]).0 == channel_id,
            forall|i: int, j: int|
                0 <= i < j < entries.len() ==> (#[trigger] entries[i]).0
                    != (#[trigger] entries[j]).0,
    {
        broadcast use vstd::std_specs::hash::group_hash_axioms;

        let mut entries: Vec<(u32, String)> = Vec::new();
        for entry in pairs: self.active_ws_connections.iter()
            invariant
                entries.len() == pairs.index(),
                forall|i: int|
                    0 <= i < entries.len() ==> (#[trigger] entries[i]).0 == *pairs.seq()[i].0
                        && entries[i].1 == *pairs.seq()[i].1,
        {
            entries.push((*entry.0, entry.1.clone()));
        }
        proof {
            let all = spec_hash_map_iter(&self.active_ws_connections).remaining();
            let held = self.active_ws_connections@;
            assert(self@.subscribers.dom() =~= held.dom());
            assert(all.len() == held.dom().len());
            assert forall|i: int| 0 <= i < entries.len() implies held.contains_key(
                (#[trigger] entries[i]).0,
            ) && held[entries[i].0] == entries[i].1 by {
                assert(held.contains_key(*all[i].0) && held[*all[i].0] == *all[i].1);
            }
            assert forall|channel_id: u32| #[trigger]
                self@.subscribers.contains_key(channel_id) implies exists|i: int|
                0 <= i < entries.len() && (#[trigger] entries[i]).0 == channel_id by {
                assert(held.contains_key(channel_id));
                assert(all.contains((&channel_id, &held[channel_id])));
                let pair = (&channel_id, &held[channel_id]);
                let at = choose|i: int| 0 <= i < all.len() && all[i] == pair;
                assert(entries[at].0 == channel_id);
            }
            assert forall|i: int, j: int| 0 <= i < j < entries.len() implies (#[trigger] entries[
                i
            ]).0 != (#[trigger] entries[j]).0 by {
                assert(held.contains_key(*all[i].0) && held[*all[i].0] == *all[i].1);
                assert(held.contains_key(*all[j].0) && held[*all[j].0] == *all[j].1);
                if entries[i].0 == entries[j].0 {
                    assert(all[i] == all[j]);
                }
            }
        }
        entries
    }

    /// How many requests were served.
    pub fn request_count(&self) -> (count: u64)
        ensures
            count == self@.request_count,
    {
        self.request_count
    }

    /// How many tasks were created on request.
    pub fn task_creation_count(&self) -> (count: u64)
        ensures
            count == self@.creation_count,
    {
        self.task_creation_count
    }

    /// The index of the task that carries `id`.
    fn index_of(&self, id: &String) -> (found: Option<usize>)
        requires
            self@.wf(),
        ensures
            match found {
                Some(at) => holds_id(self@.tasks, id@) && at == position_of(self@.tasks, id@),
                None => !holds_id(self@.tasks, id@),
            },
    {
        let mut i: usize = 0;
        while i < self.tasks.len()
            invariant
                i <= self.tasks.len(),
                self@.wf(),
                forall|k: int| 0 <= k < i ==> self@.tasks[k].id != id@,
            decreases self.tasks.len() - i,
        {
            if self.tasks[i].id == *id {
                proof {
                    assert(self@.tasks[i as int].id == id@);
                    lemma_find_at(self@.tasks, i as int);
                }
                return Some(i);
            }
            i += 1;
        }
        None
    }

    /// Stores a task under its identifier: in the place of the task that
    /// carried it, or at the end.
    fn store(&mut self, task: Task)
        requires
            old(self)@.wf(),
        ensures
            final(self)@.wf(),
            final(self)@ == (TaskManagerView { tasks: put(old(self)@.tasks, task@), ..old(self)@ }),
    {
        proof {
            lemma_put(self@.tasks, task@);
        }
        match self.index_of(&task.id) {
            Some(at) => {
                self.tasks[at] = task;
                assert(self@.tasks =~= old(self)@.tasks.update(at as int, task@));
            },
            None => {
                self.tasks.push(task);
                assert(self@.tasks =~= old(self)@.tasks.push(task@));
            },
        }
    }

    /// How many tasks stand at `status`.
    fn count_by_status(&self, status: TaskStatus) -> (count: u64)
        ensures
            count == self@.by_status(status).len(),
    {
        let mut count: u64 = 0;
        let mut i: usize = 0;
        proof {
            reveal(Seq::filter);
            assert(self@.tasks.take(0) =~= Seq::empty());
        }
        while i < self.tasks.len()
            invariant
                i <= self.tasks.len(),
                count <= i,
                count == self@.tasks.take(i as int).filter(has_status(status)).len(),
            decreases self.tasks.len() - i,
        {
            proof {
                let seen = self@.tasks.take(i as int);
                seen.lemma_filter_push(self@.tasks[i as int], has_status(status));
                assert(self@.tasks.take(i + 1) =~= seen.push(self@.tasks[i as int]));
            }
            if self.tasks[i].status == status {
                count += 1;
            }
            i += 1;
        }
        assert(self@.tasks.take(i as int) =~= self@.tasks);
        count
    }
}

} // verus!
