//! The outer loop of a connection: one serving task per announce, until the
//! announces have ended and every serving task has completed.

use vstd::prelude::*;

verus! {

/// What the caller reports to the outer loop.
#[derive(Clone, Copy, Debug, PartialEq, Eq, Structural)]
pub enum ListenEvent {
    /// The remote announced a namespace.
    Announce,
    /// The remote will announce nothing more.
    AnnouncesEnded,
    /// The serving task `task` completed.
    ServeDone { task: usize, ok: bool },
}

/// What the outer loop asks the caller to do.
#[derive(Clone, Copy, Debug, PartialEq, Eq, Structural)]
pub enum ListenAction {
    /// Serve the announce that just arrived as task `task`.
    Serve { task: usize },
    /// Log that serving task `task` failed.
    Warn { task: usize },
}

/// The outer loop's state as a mathematical value: whether announces may
/// still arrive, and for each serving task whether it is still running.
pub struct ListenView {
    pub source_open: bool,
    pub serving: Seq<bool>,
}

/// Whether some serving task is still running.
pub open spec fn any_serving(serving: Seq<bool>) -> bool {
    exists|i: int| 0 <= i < serving.len() && #[trigger] serving[i]
}

/// The loop is over when no announce can arrive and no serving task runs:
/// both, not either.
pub open spec fn listen_over(s: ListenView) -> bool {
    !s.source_open && !any_serving(s.serving)
}

/// The outer loop's rule.
pub open spec fn listen_spec(s: ListenView, e: ListenEvent) -> (ListenView, Seq<ListenAction>) {
    match e {
        ListenEvent::Announce => if s.source_open {
            (
                ListenView { serving: s.serving.push(true), ..s },
                seq![ListenAction::Serve { task: s.serving.len() as usize }],
            )
        } else {
            (s, Seq::empty())
        },
        ListenEvent::AnnouncesEnded => (ListenView { source_open: false, ..s }, Seq::empty()),
        ListenEvent::ServeDone { task, ok } => if task < s.serving.len() && s.serving[task as int] {
            (
                ListenView { serving: s.serving.update(task as int, false), ..s },
                if ok {
                    Seq::empty()
                } else {
                    seq![ListenAction::Warn { task }]
                },
            )
        } else {
            (s, Seq::empty())
        },
    }
}

/// The outer loop of one connection.
pub struct Listen {
    source_open: bool,
    serving: Vec<bool>,
}

impl View for Listen {
    type V = ListenView;

    closed spec fn view(&self) -> ListenView {
        ListenView { source_open: self.source_open, serving: self.serving@ }
    }
}

impl Listen {
    /// A loop that has seen nothing yet.
    pub fn new() -> (l: Listen)
        ensures
            l@ == (ListenView { source_open: true, serving: Seq::empty() }),
    {
        Listen { source_open: true, serving: Vec::new() }
    }

    /// Whether the next announce should be waited for.
    pub fn wants_announce(&self) -> (r: bool)
        ensures
            r == self@.source_open,
    {
        self.source_open
    }

    /// Whether the completion of a serving task should be waited for.
    pub fn wants_task(&self) -> (r: bool)
        ensures
            r == any_serving(self@.serving),
    {
        let mut i: usize = 0;
        while i < self.serving.len()
            invariant
                i <= self.serving.len(),
                forall|j: int| 0 <= j < i ==> !(#[trigger] self.serving@[j]),
            decreases self.serving.len() - i,
        {
            if self.serving[i] {
                return true;
            }
            i += 1;
        }
        false
    }

    /// Whether the loop is over.
    pub fn is_over(&self) -> (r: bool)
        ensures
            r == listen_over(self@),
    {
        !self.source_open && !self.wants_task()
    }

    /// Takes one event and says what to do next, by the loop's rule.
    pub fn step(&mut self, event: ListenEvent) -> (actions: Vec<ListenAction>)
        ensures
            final(self)@ == listen_spec(old(self)@, event).0,
            actions@ == listen_spec(old(self)@, event).1,
    {
        match event {
            ListenEvent::Announce => {
                if self.source_open {
                    let task = self.serving.len();
                    self.serving.push(true);
                    vec![ListenAction::Serve { task }]
                } else {
                    Vec::new()
                }
            },
            ListenEvent::AnnouncesEnded => {
                self.source_open = false;
                Vec::new()
            },
            ListenEvent::ServeDone { task, ok } => {
                if task < self.serving.len() && self.serving[task] {
                    self.serving.set(task, false);
                    if ok {
                        Vec::new()
                    } else {
                        vec![ListenAction::Warn { task }]
                    }
                } else {
                    Vec::new()
                }
            },
        }
    }
}

/// A serving task that fails is logged and nothing more: the loop goes on,
/// and every other serving task keeps running.
pub proof fn lemma_serve_failure_isolated(s: ListenView, task: usize, other: usize)
    requires
        task < s.serving.len(),
        s.serving[task as int],
        other < s.serving.len(),
        other != task,
    ensures
        listen_spec(s, ListenEvent::ServeDone { task, ok: false }).0.source_open == s.source_open,
        listen_spec(s, ListenEvent::ServeDone { task, ok: false }).0.serving[other as int]
            == s.serving[other as int],
        listen_spec(s, ListenEvent::ServeDone { task, ok: false }).1 == seq![
            ListenAction::Warn { task },
        ],
{
}

/// The loop is not over while an announce can arrive or while a serving
/// task runs, and once it is over no event brings it back or asks for
/// anything.
pub proof fn lemma_listen_joins(s: ListenView, e: ListenEvent)
    ensures
        s.source_open ==> !listen_over(s),
        any_serving(s.serving) ==> !listen_over(s),
        listen_over(s) ==> listen_over(listen_spec(s, e).0) && listen_spec(s, e).1
            == Seq::<ListenAction>::empty(),
{
    if listen_over(s) {
        if let ListenEvent::ServeDone { task, ok } = e {
            if task < s.serving.len() {
                assert(!s.serving[task as int]);
            }
        }
    }
}

} // verus!
