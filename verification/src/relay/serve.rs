//! Serving one announce: origin, registration, acknowledgment, forwarding,
//! and the loop that relays subscribe requests until the announce ends.

use crate::relay::task::{any_running, is_running, stop, has_running, Task, TaskKind};
use vstd::prelude::*;

verus! {

/// Why serving an announce ended in failure.
#[derive(Clone, Copy, Debug, PartialEq, Eq, Structural)]
pub enum Failure {
    /// The origin directory refused the namespace.
    Origin,
    /// The local registry refused the broadcast.
    Register,
    /// The announce could not be acknowledged.
    Ack,
    /// The remote withdrew the announce.
    Closed,
    /// The task that refreshes the origin mapping failed.
    Refresh,
}

/// Where serving stands.
#[derive(Clone, Copy, Debug, PartialEq, Eq, Structural)]
pub enum Phase {
    /// Nothing has been asked for yet.
    Idle,
    /// Waiting for the origin directory's answer.
    Origin,
    /// Waiting for the local registry's answer.
    Register,
    /// Waiting for the acknowledgment to be sent.
    Ack,
    /// In the loop that relays subscribe requests.
    Serving,
    /// Ended cleanly.
    Finished,
    /// Ended with an error.
    Failed(Failure),
}

/// What the caller reports to the engine.
#[derive(Clone, Copy, Debug, PartialEq, Eq, Structural)]
pub enum Event {
    /// Serving begins.
    Start,
    /// The origin directory answered.
    OriginSet { ok: bool },
    /// The local registry answered.
    Registered { ok: bool },
    /// The acknowledgment was sent, or could not be.
    Acked { ok: bool },
    /// The announce's closed-signal resolved, with an error or without.
    Closed { error: bool },
    /// A subscribe request arrived on the broadcast's request stream.
    Request,
    /// The request stream has ended.
    RequestsEnded,
    /// A child task completed.
    TaskDone { task: usize, ok: bool },
}

/// What the engine asks the caller to do, in the order given.
#[derive(Clone, Copy, Debug, PartialEq, Eq, Structural)]
pub enum Action {
    /// Register the namespace with the origin directory.
    SetOrigin,
    /// Run the origin refresh as task `task`.
    Refresh { task: usize },
    /// Register the broadcast's reader with the local registry.
    Register,
    /// Acknowledge the announce.
    Ack,
    /// Replay the announce to forward target `target` as task `task`.
    Forward { task: usize, target: usize },
    /// Relay the subscribe request that just arrived as task `task`.
    Subscribe { task: usize },
    /// Remove the track that task `task` subscribed to from the broadcast.
    Remove { task: usize },
    /// Log that task `task` failed; nothing else follows from it.
    Warn { task: usize },
    /// Drop task `task` without letting it complete.
    Cancel { task: usize },
    /// Drop the registration handle.
    Unregister,
}

/// The engine's state as a mathematical value.
pub struct ServeView {
    pub has_api: bool,
    pub forwards: usize,
    pub phase: Phase,
    pub registered: bool,
    pub acked: bool,
    pub closed_open: bool,
    pub requests_open: bool,
    pub tasks: Seq<Task>,
}

/// The state before anything has happened.
pub open spec fn initial(has_api: bool, forwards: usize) -> ServeView {
    ServeView {
        has_api,
        forwards,
        phase: Phase::Idle,
        registered: false,
        acked: false,
        closed_open: true,
        requests_open: true,
        tasks: Seq::empty(),
    }
}

/// Whether serving has ended, one way or the other.
pub open spec fn terminal(phase: Phase) -> bool {
    phase is Finished || phase is Failed
}

/// One `Cancel` for each running task, by rising identifier.
pub open spec fn cancel_actions(tasks: Seq<Task>) -> Seq<Action>
    decreases tasks.len(),
{
    if tasks.len() == 0 {
        Seq::empty()
    } else {
        let before = cancel_actions(tasks.drop_last());
        if tasks.last().running {
            before.push(Action::Cancel { task: (tasks.len() - 1) as usize })
        } else {
            before
        }
    }
}

/// `Unregister` if the registration handle is held, else nothing.
pub open spec fn unregister_actions(registered: bool) -> Seq<Action> {
    if registered {
        seq![Action::Unregister]
    } else {
        Seq::empty()
    }
}

/// Ending in failure: every running child is cancelled, the registration
/// handle is dropped, and nothing is left in the task table.
pub open spec fn fail(s: ServeView, err: Failure) -> (ServeView, Seq<Action>) {
    (
        ServeView { phase: Phase::Failed(err), registered: false, tasks: Seq::empty(), ..s },
        cancel_actions(s.tasks) + unregister_actions(s.registered),
    )
}

/// Whether the loop has nothing left to wait for.
pub open spec fn drained(s: ServeView) -> bool {
    !s.closed_open && !s.requests_open && !any_running(s.tasks)
}

/// After an event in the loop: if nothing is left to wait for, serving ends
/// cleanly and the registration handle is dropped; `acts` come first.
pub open spec fn settle(s: ServeView, acts: Seq<Action>) -> (ServeView, Seq<Action>) {
    if drained(s) {
        (
            ServeView { phase: Phase::Finished, registered: false, tasks: Seq::empty(), ..s },
            acts + unregister_actions(s.registered),
        )
    } else {
        (s, acts)
    }
}

/// The tasks that forward the announce, one per target.
pub open spec fn forward_tasks(forwards: usize) -> Seq<Task> {
    Seq::new(forwards as nat, |i: int| Task { kind: TaskKind::Forward(i as usize), running: true })
}

/// The actions that start those tasks; the first of them gets identifier
/// `base`.
pub open spec fn forward_actions(base: nat, forwards: usize) -> Seq<Action> {
    Seq::new(
        forwards as nat,
        |i: int| Action::Forward { task: (base + i) as usize, target: i as usize },
    )
}

/// What the completion of a running task leads to.
pub open spec fn task_done(s: ServeView, task: usize, ok: bool) -> (ServeView, Seq<Action>) {
    let rest = ServeView { tasks: stop(s.tasks, task), ..s };
    match s.tasks[task as int].kind {
        TaskKind::Refresh => if ok {
            settle(rest, Seq::empty())
        } else {
            fail(rest, Failure::Refresh)
        },
        TaskKind::Forward(_) => if ok {
            settle(rest, Seq::empty())
        } else {
            settle(rest, seq![Action::Warn { task }])
        },
        TaskKind::Subscribe => if ok {
            settle(rest, seq![Action::Remove { task }])
        } else {
            settle(rest, seq![Action::Warn { task }, Action::Remove { task }])
        },
    }
}

/// The engine's rule: the state and the actions that follow from state `s`
/// and event `e`. An event that the phase does not wait for changes nothing.
pub open spec fn step_spec(s: ServeView, e: Event) -> (ServeView, Seq<Action>) {
    match (s.phase, e) {
        (Phase::Idle, Event::Start) => if s.has_api {
            (ServeView { phase: Phase::Origin, ..s }, seq![Action::SetOrigin])
        } else {
            (ServeView { phase: Phase::Register, ..s }, seq![Action::Register])
        },
        (Phase::Origin, Event::OriginSet { ok }) => if ok {
            (
                ServeView {
                    phase: Phase::Register,
                    tasks: s.tasks.push(Task { kind: TaskKind::Refresh, running: true }),
                    ..s
                },
                seq![Action::Refresh { task: s.tasks.len() as usize }, Action::Register],
            )
        } else {
            fail(s, Failure::Origin)
        },
        (Phase::Register, Event::Registered { ok }) => if ok {
            (ServeView { phase: Phase::Ack, registered: true, ..s }, seq![Action::Ack])
        } else {
            fail(s, Failure::Register)
        },
        (Phase::Ack, Event::Acked { ok }) => if ok {
            (
                ServeView {
                    phase: Phase::Serving,
                    acked: true,
                    tasks: s.tasks + forward_tasks(s.forwards),
                    ..s
                },
                forward_actions(s.tasks.len(), s.forwards),
            )
        } else {
            fail(s, Failure::Ack)
        },
        (Phase::Serving, Event::Closed { error }) => if error {
            fail(s, Failure::Closed)
        } else {
            settle(ServeView { closed_open: false, ..s }, Seq::empty())
        },
        (Phase::Serving, Event::Request) => if s.requests_open {
            (
                ServeView {
                    tasks: s.tasks.push(Task { kind: TaskKind::Subscribe, running: true }),
                    ..s
                },
                seq![Action::Subscribe { task: s.tasks.len() as usize }],
            )
        } else {
            (s, Seq::empty())
        },
        (Phase::Serving, Event::RequestsEnded) => settle(
            ServeView { requests_open: false, ..s },
            Seq::empty(),
        ),
        (Phase::Serving, Event::TaskDone { task, ok }) => if is_running(s.tasks, task) {
            task_done(s, task, ok)
        } else {
            (s, Seq::empty())
        },
        _ => (s, Seq::empty()),
    }
}

/// What the loop should wait for next.
#[derive(Clone, Copy, Debug, PartialEq, Eq, Structural)]
pub struct Wants {
    /// The announce's closed-signal.
    pub closed: bool,
    /// The next subscribe request.
    pub request: bool,
    /// The completion of any child task.
    pub task: bool,
}

/// The engine that serves one announce.
pub struct Serve {
    has_api: bool,
    forwards: usize,
    phase: Phase,
    registered: bool,
    acked: bool,
    closed_open: bool,
    requests_open: bool,
    tasks: Vec<Task>,
}

impl View for Serve {
    type V = ServeView;

    closed spec fn view(&self) -> ServeView {
        ServeView {
            has_api: self.has_api,
            forwards: self.forwards,
            phase: self.phase,
            registered: self.registered,
            acked: self.acked,
            closed_open: self.closed_open,
            requests_open: self.requests_open,
            tasks: self.tasks@,
        }
    }
}

impl Serve {
    /// An engine for an announce, with or without an origin directory and
    /// with `forwards` forward targets.
    pub fn new(has_api: bool, forwards: usize) -> (s: Serve)
        ensures
            s@ == initial(has_api, forwards),
    {
        Serve {
            has_api,
            forwards,
            phase: Phase::Idle,
            registered: false,
            acked: false,
            closed_open: true,
            requests_open: true,
            tasks: Vec::new(),
        }
    }

    /// Where serving stands.
    pub fn phase(&self) -> (p: Phase)
        ensures
            p == self@.phase,
    {
        self.phase
    }

    /// Whether the registration handle is held.
    pub fn registered(&self) -> (r: bool)
        ensures
            r == self@.registered,
    {
        self.registered
    }

    /// Whether the announce has been acknowledged.
    pub fn acked(&self) -> (r: bool)
        ensures
            r == self@.acked,
    {
        self.acked
    }

    /// How serving ended: `None` while it has not.
    pub fn outcome(&self) -> (r: Option<Result<(), Failure>>)
        ensures
            r == outcome_of(self@.phase),
    {
        match self.phase {
            Phase::Finished => Some(Ok(())),
            Phase::Failed(e) => Some(Err(e)),
            _ => None,
        }
    }

    /// What task `task` does, if the table has such a slot.
    pub fn task(&self, task: usize) -> (r: Option<Task>)
        ensures
            r == (if task < self@.tasks.len() {
                Some(self@.tasks[task as int])
            } else {
                None
            }),
    {
        if task < self.tasks.len() {
            Some(self.tasks[task])
        } else {
            None
        }
    }

    /// What the loop should wait for: nothing outside the loop.
    pub fn wants(&self) -> (w: Wants)
        ensures
            w == wants_of(self@),
    {
        match self.phase {
            Phase::Serving => Wants {
                closed: self.closed_open,
                request: self.requests_open,
                task: has_running(&self.tasks),
            },
            _ => Wants { closed: false, request: false, task: false },
        }
    }

    fn fail(&mut self, err: Failure) -> (actions: Vec<Action>)
        ensures
            final(self)@ == fail(old(self)@, err).0,
            actions@ == fail(old(self)@, err).1,
    {
        let mut actions: Vec<Action> = Vec::new();
        let mut i: usize = 0;
        while i < self.tasks.len()
            invariant
                i <= self.tasks.len(),
                *self == *old(self),
                actions@ == cancel_actions(self.tasks@.take(i as int)),
            decreases self.tasks.len() - i,
        {
            assert(self.tasks@.take(i + 1).drop_last() =~= self.tasks@.take(i as int));
            if self.tasks[i].running {
                actions.push(Action::Cancel { task: i });
            }
            i += 1;
        }
        assert(self.tasks@.take(i as int) =~= self.tasks@);
        if self.registered {
            actions.push(Action::Unregister);
        }
        assert(actions@ =~= cancel_actions(old(self)@.tasks) + unregister_actions(
            old(self)@.registered,
        ));
        self.phase = Phase::Failed(err);
        self.registered = false;
        self.tasks = Vec::new();
        actions
    }

    fn settle(&mut self, acts: Vec<Action>) -> (actions: Vec<Action>)
        ensures
            final(self)@ == settle(old(self)@, acts@).0,
            actions@ == settle(old(self)@, acts@).1,
    {
        let mut actions = acts;
        if !self.closed_open && !self.requests_open && !has_running(&self.tasks) {
            if self.registered {
                actions.push(Action::Unregister);
            }
            assert(actions@ =~= acts@ + unregister_actions(old(self)@.registered));
            self.phase = Phase::Finished;
            self.registered = false;
            self.tasks = Vec::new();
        }
        actions
    }

    fn spawn_forwards(&mut self) -> (actions: Vec<Action>)
        ensures
            final(self)@ == (ServeView {
                tasks: old(self)@.tasks + forward_tasks(old(self)@.forwards),
                ..old(self)@
            }),
            actions@ == forward_actions(old(self)@.tasks.len(), old(self)@.forwards),
    {
        let mut actions: Vec<Action> = Vec::new();
        let mut target: usize = 0;
        let ghost base = self.tasks@.len();
        while target < self.forwards
            invariant
                target <= self.forwards,
                base == old(self)@.tasks.len(),
                self@ == (ServeView {
                    tasks: old(self)@.tasks + forward_tasks(target),
                    ..old(self)@
                }),
                actions@ == forward_actions(base, target),
            decreases self.forwards - target,
        {
            let task = self.tasks.len();
            self.tasks.push(Task { kind: TaskKind::Forward(target), running: true });
            actions.push(Action::Forward { task, target });
            assert(self.tasks@ =~= old(self)@.tasks + forward_tasks((target + 1) as usize));
            assert(actions@ =~= forward_actions(base, (target + 1) as usize));
            target += 1;
        }
        actions
    }

    fn task_done(&mut self, task: usize, ok: bool) -> (actions: Vec<Action>)
        requires
            is_running(old(self)@.tasks, task),
        ensures
            final(self)@ == task_done(old(self)@, task, ok).0,
            actions@ == task_done(old(self)@, task, ok).1,
    {
        let kind = self.tasks[task].kind;
        self.tasks.set(task, Task { kind, running: false });
        let mut acts: Vec<Action> = Vec::new();
        match kind {
            TaskKind::Refresh => {
                if ok {
                    self.settle(acts)
                } else {
                    self.fail(Failure::Refresh)
                }
            },
            TaskKind::Forward(_) => {
                if !ok {
                    acts.push(Action::Warn { task });
                }
                assert(acts@ =~= (if ok {
                    Seq::<Action>::empty()
                } else {
                    seq![Action::Warn { task }]
                }));
                self.settle(acts)
            },
            TaskKind::Subscribe => {
                if !ok {
                    acts.push(Action::Warn { task });
                }
                acts.push(Action::Remove { task });
                assert(acts@ =~= (if ok {
                    seq![Action::Remove { task }]
                } else {
                    seq![Action::Warn { task }, Action::Remove { task }]
                }));
                self.settle(acts)
            },
        }
    }

    /// Takes one event and says what to do next, by the engine's rule.
    pub fn step(&mut self, event: Event) -> (actions: Vec<Action>)
        ensures
            final(self)@ == step_spec(old(self)@, event).0,
            actions@ == step_spec(old(self)@, event).1,
    {
        match (self.phase, event) {
            (Phase::Idle, Event::Start) => {
                if self.has_api {
                    self.phase = Phase::Origin;
                    vec![Action::SetOrigin]
                } else {
                    self.phase = Phase::Register;
                    vec![Action::Register]
                }
            },
            (Phase::Origin, Event::OriginSet { ok }) => {
                if ok {
                    let task = self.tasks.len();
                    self.tasks.push(Task { kind: TaskKind::Refresh, running: true });
                    self.phase = Phase::Register;
                    vec![Action::Refresh { task }, Action::Register]
                } else {
                    self.fail(Failure::Origin)
                }
            },
            (Phase::Register, Event::Registered { ok }) => {
                if ok {
                    self.phase = Phase::Ack;
                    self.registered = true;
                    vec![Action::Ack]
                } else {
                    self.fail(Failure::Register)
                }
            },
            (Phase::Ack, Event::Acked { ok }) => {
                if ok {
                    self.phase = Phase::Serving;
                    self.acked = true;
                    self.spawn_forwards()
                } else {
                    self.fail(Failure::Ack)
                }
            },
            (Phase::Serving, Event::Closed { error }) => {
                if error {
                    self.fail(Failure::Closed)
                } else {
                    self.closed_open = false;
                    self.settle(Vec::new())
                }
            },
            (Phase::Serving, Event::Request) => {
                if self.requests_open {
                    let task = self.tasks.len();
                    self.tasks.push(Task { kind: TaskKind::Subscribe, running: true });
                    vec![Action::Subscribe { task }]
                } else {
                    Vec::new()
                }
            },
            (Phase::Serving, Event::RequestsEnded) => {
                self.requests_open = false;
                self.settle(Vec::new())
            },
            (Phase::Serving, Event::TaskDone { task, ok }) => {
                if task < self.tasks.len() && self.tasks[task].running {
                    self.task_done(task, ok)
                } else {
                    Vec::new()
                }
            },
            _ => Vec::new(),
        }
    }
}

/// How a phase reads as an outcome.
pub open spec fn outcome_of(phase: Phase) -> Option<Result<(), Failure>> {
    match phase {
        Phase::Finished => Some(Ok(())),
        Phase::Failed(e) => Some(Err(e)),
        _ => None,
    }
}

/// What the loop waits for in state `s`.
pub open spec fn wants_of(s: ServeView) -> Wants {
    if s.phase is Serving {
        Wants { closed: s.closed_open, request: s.requests_open, task: any_running(s.tasks) }
    } else {
        Wants { closed: false, request: false, task: false }
    }
}

} // verus!
