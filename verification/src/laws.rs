//! Laws of the registry model.
//!
//! The executable operations are specified by the model operations of
//! [`RegistryState`]; what is proved here of the model therefore holds of
//! every run of a [`TaskManager`](crate::registry::TaskManager).

use vstd::prelude::*;
use vstd::set_lib::{lemma_int_range, lemma_map_size, set_int_range};
use crate::model::{Command, RecordView, RegistryState};

verus! {

/// The empty registry is well formed.
pub proof fn lemma_empty_well_formed()
    ensures
        RegistryState::empty().well_formed(),
{
}

/// No command, accepted or refused, breaks the invariant: task ids stay
/// exactly the numbers handed out so far, and every task stays assigned to a
/// registered user.
pub proof fn lemma_step_preserves_well_formed(state: RegistryState, command: Command)
    requires
        state.well_formed(),
    ensures
        state.step(command).well_formed(),
{
}

/// No command takes a user or a task away, changes a task's description,
/// reopens a completed task, or moves the counter back.
pub proof fn lemma_step_keeps_records(state: RegistryState, command: Command)
    requires
        state.well_formed(),
    ensures
        state.users.dom().subset_of(state.step(command).users.dom()),
        state.tasks.dom().subset_of(state.step(command).tasks.dom()),
        state.next_id <= state.step(command).next_id,
        forall|t: nat| #[trigger]
            state.tasks.contains_key(t) ==> {
                &&& state.step(command).tasks[t].description == state.tasks[t].description
                &&& state.tasks[t].completed ==> state.step(command).tasks[t].completed
            },
{
}

/// Every run from a well-formed registry ends in a well-formed registry.
pub proof fn lemma_run_preserves_well_formed(state: RegistryState, commands: Seq<Command>)
    requires
        state.well_formed(),
    ensures
        state.run(commands).well_formed(),
    decreases commands.len(),
{
    if commands.len() > 0 {
        lemma_run_preserves_well_formed(state, commands.drop_last());
        lemma_step_preserves_well_formed(state.run(commands.drop_last()), commands.last());
    }
}

/// A run of `n + 1` commands is the run of the first `n`, then one step.
pub proof fn lemma_run_prefix(state: RegistryState, commands: Seq<Command>, n: int)
    requires
        0 <= n < commands.len(),
    ensures
        state.run(commands.take(n + 1)) == state.run(commands.take(n)).step(commands[n]),
{
    assert(commands.take(n + 1).drop_last() =~= commands.take(n));
}

/// The last registration wins: after any run, in which registrations may be
/// mixed with other commands, the name stored for a user id is the one given
/// by the last `AddUser` for that id.
pub proof fn lemma_last_registration_wins(state: RegistryState, commands: Seq<Command>, i: int)
    requires
        0 <= i < commands.len(),
        commands[i] is AddUser,
        forall|j: int|
            i < j < commands.len() && commands[j] is AddUser ==> commands[j]->id
                != commands[i]->id,
    ensures
        state.run(commands).users.contains_key(commands[i]->id),
        state.run(commands).users[commands[i]->id] == commands[i]->name,
    decreases commands.len(),
{
    if i < commands.len() - 1 {
        lemma_last_registration_wins(state, commands.drop_last(), i);
    }
}

/// The counter never moves back in a run: it is no smaller after `b`
/// commands than after the first `a` of them.
pub proof fn lemma_counter_monotonic(
    state: RegistryState,
    commands: Seq<Command>,
    a: int,
    b: int,
)
    requires
        0 <= a <= b <= commands.len(),
    ensures
        state.run(commands.take(a)).next_id <= state.run(commands.take(b)).next_id,
    decreases b - a,
{
    if a < b {
        lemma_counter_monotonic(state, commands, a, b - 1);
        lemma_run_prefix(state, commands, b - 1);
    }
}

/// Task ids grow: an accepted `AddTask` returns the counter of the state it
/// is carried out in, and of two accepted `AddTask` commands in one run the
/// later returns the larger id.
pub proof fn lemma_task_ids_increase(
    state: RegistryState,
    commands: Seq<Command>,
    i: int,
    j: int,
)
    requires
        0 <= i < j < commands.len(),
        commands[i] is AddTask,
        state.run(commands.take(i)).error(commands[i]) is None,
        commands[j] is AddTask,
        state.run(commands.take(j)).error(commands[j]) is None,
    ensures
        state.run(commands.take(i)).next_id < state.run(commands.take(j)).next_id,
{
    lemma_run_prefix(state, commands, i);
    lemma_counter_monotonic(state, commands, i + 1, j);
}

/// Completing is idempotent: a second `CompleteTask` for the same task,
/// whether the first was accepted or refused, changes nothing.
pub proof fn lemma_complete_twice(state: RegistryState, task: nat)
    ensures
        state.step(Command::CompleteTask { task }).step(Command::CompleteTask { task })
            == state.step(Command::CompleteTask { task }),
        state.error(Command::CompleteTask { task }) is None ==> state.step(
            Command::CompleteTask { task },
        ).tasks[task].completed,
{
    let once = state.step(Command::CompleteTask { task });
    assert(once.step(Command::CompleteTask { task }).tasks =~= once.tasks);
}

/// A listing has exactly one line for each task, so it has as many lines as
/// there are tasks, which is as many as ids have been handed out.
pub proof fn lemma_listing_length(state: RegistryState, records: Seq<RecordView>)
    requires
        state.well_formed(),
        state.is_listing(records),
    ensures
        state.tasks.dom().finite(),
        records.len() == state.tasks.dom().len(),
        records.len() == state.next_id - 1,
{
    let ids = records.map_values(|record: RecordView| record.id);
    ids.unique_seq_to_set();
    assert(ids.to_set() =~= state.tasks.dom()) by {
        assert forall|t: nat| state.tasks.contains_key(t) implies ids.to_set().contains(t) by {
            let i = choose|i: int| 0 <= i < records.len() && #[trigger] records[i].id == t;
            assert(ids[i] == t);
        }
    }
    let handed_out = set_int_range(1, state.next_id as int);
    let as_nat = |i: int| i as nat;
    lemma_int_range(1, state.next_id as int);
    assert(handed_out.map(as_nat) =~= state.tasks.dom()) by {
        assert forall|t: nat| state.tasks.contains_key(t) implies handed_out.map(as_nat).contains(
            t,
        ) by {
            assert(handed_out.contains(t as int) && as_nat(t as int) == t);
        }
    }
    lemma_map_size(handed_out, state.tasks.dom(), as_nat);
}

} // verus!
