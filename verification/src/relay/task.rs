//! The table of child tasks that a serving announce owns.

use vstd::prelude::*;

verus! {

/// What a child task does.
#[derive(Clone, Copy, Debug, PartialEq, Eq, Structural)]
pub enum TaskKind {
    /// Keeps the origin mapping alive for as long as the announce lives.
    Refresh,
    /// Replays the announce to the forward target with this index.
    Forward(usize),
    /// Relays one subscribe request to the remote session.
    Subscribe,
}

/// One slot of the task table. A task's identifier is the index of its slot.
#[derive(Clone, Copy, Debug, PartialEq, Eq, Structural)]
pub struct Task {
    pub kind: TaskKind,
    pub running: bool,
}

/// Whether any task of the table is still running.
pub open spec fn any_running(tasks: Seq<Task>) -> bool {
    exists|i: int| 0 <= i < tasks.len() && (#[trigger] tasks[i]).running
}

/// Whether `task` names a running slot.
pub open spec fn is_running(tasks: Seq<Task>, task: usize) -> bool {
    task < tasks.len() && tasks[task as int].running
}

/// The table after `task` has stopped.
pub open spec fn stop(tasks: Seq<Task>, task: usize) -> Seq<Task>
    recommends
        task < tasks.len(),
{
    tasks.update(task as int, Task { kind: tasks[task as int].kind, running: false })
}

/// Scans the table for a running task.
pub fn has_running(tasks: &Vec<Task>) -> (r: bool)
    ensures
        r == any_running(tasks@),
{
    let mut i: usize = 0;
    while i < tasks.len()
        invariant
            i <= tasks.len(),
            forall|j: int| 0 <= j < i ==> !(#[trigger] tasks@[j]).running,
        decreases tasks.len() - i,
    {
        if tasks[i].running {
            return true;
        }
        i += 1;
    }
    false
}

} // verus!
