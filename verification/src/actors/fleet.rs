//! The tasks of a running node, and the order in which they are waited for.
use vstd::prelude::*;

verus! {

/// How many commands each security actor's mailbox holds.
pub const SHIELD_WALL_MAILBOX: usize = 64;

/// A background task.
#[derive(Debug, Clone, Copy, PartialEq, Eq, Structural)]
pub enum Task {
    Eclipse,
    Canary,
    Vitals,
    Archive,
    Revocation,
    Storage,
    Egress,
    Trust,
    Retrieval,
    Ingestion,
    Media,
}

/// How waiting for a task ended.
#[derive(Debug, Clone, Copy, PartialEq, Eq, Structural)]
pub enum TaskEnd {
    Done,
    Panicked,
    /// The deadline, which all tasks share, has passed.
    TimedOut,
}

/// The security actors, in the order in which they are started and waited for.
pub open spec fn shield_wall() -> Seq<Task> {
    seq![Task::Eclipse, Task::Canary, Task::Vitals, Task::Archive, Task::Revocation]
}

/// All tasks in the order in which they are waited for: first those that send,
/// then those that they send to.
pub open spec fn all_tasks() -> Seq<Task> {
    shield_wall() + seq![
        Task::Storage,
        Task::Egress,
        Task::Trust,
        Task::Retrieval,
        Task::Ingestion,
        Task::Media,
    ]
}

/// Every security actor is waited for before storage and egress, to which it sends.
pub proof fn law_senders_drain_first(i: int, j: int)
    requires
        0 <= i < all_tasks().len(),
        0 <= j < all_tasks().len(),
        shield_wall().contains(all_tasks()[i]),
        all_tasks()[j] == Task::Storage || all_tasks()[j] == Task::Egress,
    ensures
        i < j,
{
    assert(all_tasks().len() == 11);
    assert(all_tasks()[0] == Task::Eclipse);
    assert(all_tasks()[1] == Task::Canary);
    assert(all_tasks()[2] == Task::Vitals);
    assert(all_tasks()[3] == Task::Archive);
    assert(all_tasks()[4] == Task::Revocation);
    assert(all_tasks()[5] == Task::Storage);
    assert(all_tasks()[6] == Task::Egress);
    assert(all_tasks()[7] == Task::Trust);
    assert(all_tasks()[8] == Task::Retrieval);
    assert(all_tasks()[9] == Task::Ingestion);
    assert(all_tasks()[10] == Task::Media);
    let k = choose|k: int| 0 <= k < shield_wall().len() && shield_wall()[k] == all_tasks()[i];
    assert(0 <= k < 5);
}

/// The security actors in order.
pub fn spawn_shield_wall() -> (tasks: Vec<Task>)
    ensures
        tasks@ == shield_wall(),
{
    let mut tasks: Vec<Task> = Vec::new();
    tasks.push(Task::Eclipse);
    tasks.push(Task::Canary);
    tasks.push(Task::Vitals);
    tasks.push(Task::Archive);
    tasks.push(Task::Revocation);
    assert(tasks@ =~= shield_wall());
    tasks
}

/// All tasks in the order in which they are waited for.
pub fn background_tasks() -> (tasks: Vec<Task>)
    ensures
        tasks@ == all_tasks(),
{
    let mut tasks = spawn_shield_wall();
    tasks.push(Task::Storage);
    tasks.push(Task::Egress);
    tasks.push(Task::Trust);
    tasks.push(Task::Retrieval);
    tasks.push(Task::Ingestion);
    tasks.push(Task::Media);
    assert(tasks@ =~= all_tasks());
    tasks
}

/// Waiting goes on after a task that ended: a panic is no reason to stop, but
/// past the shared deadline the others are abandoned too.
pub fn goes_on_waiting(end: TaskEnd) -> (b: bool)
    ensures
        b == (end != TaskEnd::TimedOut),
{
    match end {
        TaskEnd::TimedOut => false,
        _ => true,
    }
}

} // verus!
