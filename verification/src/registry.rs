//! The executable registry.
//!
//! [`TaskManager`] keeps users and tasks in two hash maps keyed by id and
//! hands out task ids from a counter. Its view is a
//! [`RegistryState`](crate::model::RegistryState); every operation says which
//! model operation it carries out.

use vstd::prelude::*;
use vstd::std_specs::iter::IteratorSpec;
use std::collections::HashMap;
use std::collections::hash_map::Entry;
use crate::error::ErrorKind;
use crate::laws::lemma_listing_length;
use crate::model::{RecordView, RegistryState, TaskState};

verus! {

/// A registered user.
#[derive(Debug, Clone)]
pub struct User {
    pub id: usize,
    pub name: String,
}

/// A task as the registry stores it.
#[derive(Debug, Clone)]
pub struct Task {
    pub id: usize,
    pub description: String,
    pub completed: bool,
    /// The id of the user the task is assigned to.
    pub owner: usize,
}

impl View for Task {
    type V = TaskState;

    open spec fn view(&self) -> TaskState {
        TaskState {
            description: self.description@,
            completed: self.completed,
            owner: self.owner as nat,
        }
    }
}

/// What a successful transfer did: which task went from whom to whom.
#[derive(Debug, Clone, Copy, PartialEq, Eq, Structural)]
pub struct Transfer {
    pub task_id: usize,
    pub old_owner: usize,
    pub new_owner: usize,
}

/// One line of a listing: a task with its owner's name filled in.
#[derive(Debug, Clone, PartialEq, Eq)]
pub struct TaskRecord {
    pub id: usize,
    pub description: String,
    pub owner_name: String,
    pub completed: bool,
}

impl View for TaskRecord {
    type V = RecordView;

    open spec fn view(&self) -> RecordView {
        RecordView {
            id: self.id as nat,
            description: self.description@,
            owner_name: self.owner_name@,
            completed: self.completed,
        }
    }
}

/// The lines of a listing as the model sees them.
pub open spec fn records_view(records: Seq<TaskRecord>) -> Seq<RecordView> {
    records.map_values(|record: TaskRecord| record@)
}

/// The registry of users and tasks.
pub struct TaskManager {
    users: HashMap<usize, User>,
    tasks: HashMap<usize, Task>,
    next_task_id: usize,
}

impl View for TaskManager {
    type V = RegistryState;

    closed spec fn view(&self) -> RegistryState {
        RegistryState {
            users: Map::new(
                |id: nat| id <= usize::MAX && self.users@.contains_key(id as usize),
                |id: nat| self.users@[id as usize].name@,
            ),
            tasks: Map::new(
                |id: nat| id <= usize::MAX && self.tasks@.contains_key(id as usize),
                |id: nat| self.tasks@[id as usize]@,
            ),
            next_id: self.next_task_id as nat,
        }
    }
}

impl TaskManager {
    /// The representation invariant: every stored record carries the id it is
    /// stored under, and the view is a well-formed registry.
    pub closed spec fn wf(&self) -> bool {
        &&& forall|id: usize| #[trigger]
            self.users@.contains_key(id) ==> self.users@[id].id == id
        &&& forall|id: usize| #[trigger]
            self.tasks@.contains_key(id) ==> self.tasks@[id].id == id
        &&& self@.well_formed()
    }

    /// What a valid registry guarantees about its view: it is well formed,
    /// and all its ids and its counter fit in a machine word.
    pub proof fn lemma_wf_view(&self)
        requires
            self.wf(),
        ensures
            self@.well_formed(),
            self@.next_id <= usize::MAX,
            forall|id: nat| self@.users.contains_key(id) ==> id <= usize::MAX,
            forall|id: nat| self@.tasks.contains_key(id) ==> id <= usize::MAX,
    {
    }

    /// An empty registry. The first task created in it gets id 1.
    pub fn new() -> (manager: Self)
        ensures
            manager.wf(),
            manager@ == RegistryState::empty(),
    {
        let manager = TaskManager { users: HashMap::new(), tasks: HashMap::new(), next_task_id: 1 };
        assert(manager@.users =~= Map::empty());
        assert(manager@.tasks =~= Map::empty());
        manager
    }

    /// The id that the next task will get.
    pub fn next_task_id(&self) -> (id: usize)
        ensures
            id == self@.next_id,
    {
        self.next_task_id
    }

    /// Looks up the user registered under `id`.
    pub fn user(&self, id: usize) -> (found: Option<&User>)
        requires
            self.wf(),
        ensures
            match found {
                Some(user) => {
                    &&& self@.users.contains_key(id as nat)
                    &&& user.id == id
                    &&& user.name@ == self@.users[id as nat]
                },
                None => !self@.users.contains_key(id as nat),
            },
    {
        self.users.get(&id)
    }

    /// Looks up the task stored under `id`.
    pub fn task(&self, id: usize) -> (found: Option<&Task>)
        requires
            self.wf(),
        ensures
            match found {
                Some(task) => {
                    &&& self@.tasks.contains_key(id as nat)
                    &&& task.id == id
                    &&& task@ == self@.tasks[id as nat]
                },
                None => !self@.tasks.contains_key(id as nat),
            },
    {
        self.tasks.get(&id)
    }

    /// The name to show for the owner id `owner_id`: the name registered
    /// under it, or `"Unknown"` where no user has that id.
    pub fn owner_name(&self, owner_id: usize) -> (name: String)
        ensures
            name@ == self@.owner_name(owner_id as nat),
    {
        match self.users.get(&owner_id) {
            Some(user) => user.name.clone(),
            None => "Unknown".to_owned(),
        }
    }

    /// Registers the user `id` under `name`.
    ///
    /// An id that is registered already keeps no trace of its earlier name:
    /// the last registration is the one that counts.
    pub fn add_user(&mut self, id: usize, name: String)
        requires
            old(self).wf(),
        ensures
            final(self).wf(),
            final(self)@ == old(self)@.register_user(id as nat, name@),
    {
        self.users.insert(id, User { id, name });
        proof {
            assert(self@.users =~= old(self)@.register_user(id as nat, name@).users);
        }
    }

    /// Creates an open task for the user `owner_id` and returns its id.
    ///
    /// The id is the registry's counter, which then moves on by one; so the
    /// id is larger than that of every task created before. Where the owner
    /// is not registered nothing changes, and the counter is not used up.
    ///
    /// A task can only be accepted while the counter has not reached
    /// `usize::MAX`: see [`TaskManager::next_task_id`].
    pub fn add_task(&mut self, owner_id: usize, description: String) -> (result: Result<
        usize,
        ErrorKind,
    >)
        requires
            old(self).wf(),
            old(self)@.users.contains_key(owner_id as nat) ==> old(self)@.next_id < usize::MAX,
        ensures
            final(self).wf(),
            match result {
                Ok(id) => {
                    &&& old(self)@.create_error(owner_id as nat) is None
                    &&& id == old(self)@.next_id
                    &&& forall|t: nat| old(self)@.tasks.contains_key(t) ==> t < id
                    &&& final(self)@ == old(self)@.create_task(owner_id as nat, description@)
                },
                Err(error) => {
                    &&& old(self)@.create_error(owner_id as nat) == Some(error)
                    &&& final(self)@ == old(self)@
                },
            },
    {
        if !self.users.contains_key(&owner_id) {
            return Err(ErrorKind::UserNotFound);
        }
        let id = self.next_task_id;
        let task = Task { id, description, completed: false, owner: owner_id };
        self.tasks.insert(id, task);
        self.next_task_id = id + 1;
        proof {
            assert(self@.tasks =~= old(self)@.create_task(owner_id as nat, description@).tasks);
        }
        Ok(id)
    }

    /// Hands the task `task_id` over to the user `new_owner_id`.
    ///
    /// The task is looked up first, so an unknown task is reported even when
    /// the user is unknown too. On success the task's previous owner is
    /// replaced and is reported back, together with the two ids given; on
    /// failure nothing changes.
    pub fn transfer_task(&mut self, task_id: usize, new_owner_id: usize) -> (result: Result<
        Transfer,
        ErrorKind,
    >)
        requires
            old(self).wf(),
        ensures
            final(self).wf(),
            match result {
                Ok(transfer) => {
                    &&& old(self)@.transfer_error(task_id as nat, new_owner_id as nat) is None
                    &&& final(self)@ == old(self)@.transfer_task(
                        task_id as nat,
                        new_owner_id as nat,
                    )
                    &&& transfer.task_id == task_id
                    &&& transfer.old_owner == old(self)@.tasks[task_id as nat].owner
                    &&& transfer.new_owner == new_owner_id
                },
                Err(error) => {
                    &&& old(self)@.transfer_error(task_id as nat, new_owner_id as nat) == Some(
                        error,
                    )
                    &&& final(self)@ == old(self)@
                },
            },
    {
        let result = match self.tasks.entry(task_id) {
            Entry::Occupied(mut occupied) => {
                if self.users.contains_key(&new_owner_id) {
                    let task = occupied.get_mut();
                    let old_owner = task.owner;
                    task.owner = new_owner_id;
                    Ok(Transfer { task_id, old_owner, new_owner: new_owner_id })
                } else {
                    Err(ErrorKind::UserNotFound)
                }
            },
            Entry::Vacant(_) => Err(ErrorKind::TaskNotFound),
        };
        proof {
            match result {
                Ok(_) => {
                    assert(self@.tasks =~= old(self)@.transfer_task(
                        task_id as nat,
                        new_owner_id as nat,
                    ).tasks);
                },
                Err(_) => {
                    assert(self.tasks@ =~= old(self).tasks@);
                },
            }
        }
        result
    }

    /// Marks the task `task_id` as completed.
    ///
    /// Completing a task that is completed already succeeds and leaves it
    /// completed. Where no such task exists nothing changes.
    pub fn complete_task(&mut self, task_id: usize) -> (result: Result<(), ErrorKind>)
        requires
            old(self).wf(),
        ensures
            final(self).wf(),
            match result {
                Ok(()) => {
                    &&& old(self)@.complete_error(task_id as nat) is None
                    &&& final(self)@ == old(self)@.complete_task(task_id as nat)
                },
                Err(error) => {
                    &&& old(self)@.complete_error(task_id as nat) == Some(error)
                    &&& final(self)@ == old(self)@
                },
            },
    {
        let result = match self.tasks.entry(task_id) {
            Entry::Occupied(mut occupied) => {
                let task = occupied.get_mut();
                task.completed = true;
                Ok(())
            },
            Entry::Vacant(_) => Err(ErrorKind::TaskNotFound),
        };
        proof {
            match result {
                Ok(_) => {
                    assert(self@.tasks =~= old(self)@.complete_task(task_id as nat).tasks);
                },
                Err(_) => {
                    assert(self.tasks@ =~= old(self).tasks@);
                },
            }
        }
        result
    }

    /// Lists the tasks, one record for each, in no particular order.
    ///
    /// A record shows the name of the task's owner as it is registered now,
    /// or `"Unknown"` where no user has the owner's id.
    pub fn list_tasks(&self) -> (records: Vec<TaskRecord>)
        requires
            self.wf(),
        ensures
            self@.is_listing(records_view(records@)),
            records.len() == self@.next_id - 1,
            forall|i: int|
                #![trigger records[i]]
                0 <= i < records.len() ==> self@.tasks.contains_key(records[i].id as nat)
                    && records[i]@ == self@.record(records[i].id as nat),
    {
        let mut records: Vec<TaskRecord> = Vec::new();
        let ghost entries = self.tasks.iter().remaining();
        for entry in it: self.tasks.iter()
            invariant
                self.wf(),
                it.seq() == entries,
                entries.no_duplicates(),
                records.len() == it.index(),
                forall|i: int|
                    0 <= i < records.len() ==> (#[trigger] records[i])@ == self@.record(
                        *entries[i].0 as nat,
                    ),
        {
            let task = entry.1;
            records.push(
                TaskRecord {
                    id: task.id,
                    description: task.description.clone(),
                    owner_name: self.owner_name(task.owner),
                    completed: task.completed,
                },
            );
        }
        proof {
            let lines = records_view(records@);
            assert forall|t: nat| self@.tasks.contains_key(t) implies exists|i: int|
                0 <= i < lines.len() && #[trigger] lines[i].id == t by {
                let key = t as usize;
                let i = entries.index_of((&key, &self.tasks@[key]));
                assert(lines[i].id == t);
            }
            lemma_listing_length(self@, lines);
        }
        records
    }
}

} // verus!
