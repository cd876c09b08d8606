//! The registry as a mathematical object.
//!
//! A [`RegistryState`] is two maps and a counter. Ids are natural
//! numbers here; the executable registry stores them in machine words. The
//! operations are total functions on states, so that laws about them can be
//! stated without reference to any machine limit.

use vstd::prelude::*;
use crate::error::ErrorKind;

verus! {

/// What the registry knows about one task, apart from its id.
pub struct TaskState {
    pub description: Seq<char>,
    pub completed: bool,
    /// The id of the user the task is assigned to. It is a plain identifier:
    /// finding the user is a lookup in [`RegistryState::users`].
    pub owner: nat,
}

/// One line of a listing: a task with its owner's name filled in.
pub struct RecordView {
    pub id: nat,
    pub description: Seq<char>,
    pub owner_name: Seq<char>,
    pub completed: bool,
}

/// The whole registry.
pub struct RegistryState {
    /// The registered users: id to name.
    pub users: Map<nat, Seq<char>>,
    /// The tasks created so far, by id.
    pub tasks: Map<nat, TaskState>,
    /// The id that the next task will get.
    pub next_id: nat,
}

/// A request to change the registry.
pub enum Command {
    AddUser { id: nat, name: Seq<char> },
    AddTask { owner: nat, description: Seq<char> },
    TransferTask { task: nat, new_owner: nat },
    CompleteTask { task: nat },
}

/// The name shown for an owner id that no registered user has.
pub open spec fn unknown_owner() -> Seq<char> {
    "Unknown"@
}

impl RegistryState {
    /// The registry before anything has happened: no users, no tasks, and the
    /// first task id is 1.
    pub open spec fn empty() -> Self {
        RegistryState { users: Map::empty(), tasks: Map::empty(), next_id: 1 }
    }

    /// The invariant of every reachable registry: task ids are exactly the
    /// numbers handed out so far, `1` up to but not including `next_id`, and
    /// every task is assigned to a registered user.
    pub open spec fn well_formed(self) -> bool {
        &&& self.next_id >= 1
        &&& forall|t: nat| self.tasks.contains_key(t) <==> 1 <= t < self.next_id
        &&& forall|t: nat| #[trigger]
            self.tasks.contains_key(t) ==> self.users.contains_key(self.tasks[t].owner)
    }

    /// Registering a user stores `name` under `id`, replacing whatever name
    /// was there.
    pub open spec fn register_user(self, id: nat, name: Seq<char>) -> Self {
        RegistryState { users: self.users.insert(id, name), ..self }
    }

    /// Why a task cannot be created for `owner`, if it cannot.
    pub open spec fn create_error(self, owner: nat) -> Option<ErrorKind> {
        if self.users.contains_key(owner) {
            None
        } else {
            Some(ErrorKind::UserNotFound)
        }
    }

    /// Creating a task stores an open task under `next_id` and moves the
    /// counter on by one.
    pub open spec fn create_task(self, owner: nat, description: Seq<char>) -> Self {
        RegistryState {
            tasks: self.tasks.insert(
                self.next_id,
                TaskState { description, completed: false, owner },
            ),
            next_id: self.next_id + 1,
            ..self
        }
    }

    /// Why `task` cannot be handed to `new_owner`, if it cannot. An unknown
    /// task is reported before an unknown user.
    pub open spec fn transfer_error(self, task: nat, new_owner: nat) -> Option<ErrorKind> {
        if !self.tasks.contains_key(task) {
            Some(ErrorKind::TaskNotFound)
        } else if !self.users.contains_key(new_owner) {
            Some(ErrorKind::UserNotFound)
        } else {
            None
        }
    }

    /// Handing a task over replaces its owner and nothing else.
    pub open spec fn transfer_task(self, task: nat, new_owner: nat) -> Self {
        RegistryState {
            tasks: self.tasks.insert(task, TaskState { owner: new_owner, ..self.tasks[task] }),
            ..self
        }
    }

    /// Why `task` cannot be completed, if it cannot.
    pub open spec fn complete_error(self, task: nat) -> Option<ErrorKind> {
        if self.tasks.contains_key(task) {
            None
        } else {
            Some(ErrorKind::TaskNotFound)
        }
    }

    /// Completing a task sets its flag and nothing else.
    pub open spec fn complete_task(self, task: nat) -> Self {
        RegistryState {
            tasks: self.tasks.insert(task, TaskState { completed: true, ..self.tasks[task] }),
            ..self
        }
    }

    /// Why `command` is refused in this state, if it is.
    pub open spec fn error(self, command: Command) -> Option<ErrorKind> {
        match command {
            Command::AddUser { .. } => None,
            Command::AddTask { owner, .. } => self.create_error(owner),
            Command::TransferTask { task, new_owner } => self.transfer_error(task, new_owner),
            Command::CompleteTask { task } => self.complete_error(task),
        }
    }

    /// The state after `command`: a refused command changes nothing, an
    /// accepted one is carried out.
    pub open spec fn step(self, command: Command) -> Self {
        if self.error(command) is Some {
            self
        } else {
            match command {
                Command::AddUser { id, name } => self.register_user(id, name),
                Command::AddTask { owner, description } => self.create_task(owner, description),
                Command::TransferTask { task, new_owner } => self.transfer_task(task, new_owner),
                Command::CompleteTask { task } => self.complete_task(task),
            }
        }
    }

    /// The state after `commands`, carried out from first to last.
    pub open spec fn run(self, commands: Seq<Command>) -> Self
        decreases commands.len(),
    {
        if commands.len() == 0 {
            self
        } else {
            self.run(commands.drop_last()).step(commands.last())
        }
    }

    /// The name to show for `owner`: the registered name, or
    /// [`unknown_owner`] where no user has that id.
    pub open spec fn owner_name(self, owner: nat) -> Seq<char> {
        if self.users.contains_key(owner) {
            self.users[owner]
        } else {
            unknown_owner()
        }
    }

    /// The listing line of the task stored under `id`.
    pub open spec fn record(self, id: nat) -> RecordView {
        RecordView {
            id,
            description: self.tasks[id].description,
            owner_name: self.owner_name(self.tasks[id].owner),
            completed: self.tasks[id].completed,
        }
    }

    /// `records` lists the tasks of this registry: every line is the record
    /// of a stored task, every stored task has a line, and no task has two.
    /// The order of the lines is left open.
    pub open spec fn is_listing(self, records: Seq<RecordView>) -> bool {
        &&& forall|i: int|
            0 <= i < records.len() ==> self.tasks.contains_key(#[trigger] records[i].id)
                && records[i] == self.record(records[i].id)
        &&& forall|t: nat|
            self.tasks.contains_key(t) ==> exists|i: int|
                0 <= i < records.len() && #[trigger] records[i].id == t
        &&& forall|i: int, j: int|
            0 <= i < j < records.len() ==> #[trigger] records[i].id != #[trigger] records[j].id
    }
}

} // verus!
