//! What holds of every run of the engine that serves an announce.

use crate::relay::serve::{
    cancel_actions, fail, initial, settle, step_spec, task_done, terminal, unregister_actions,
    Action, Event, Failure, Phase, ServeView,
};
use crate::relay::task::{any_running, is_running, stop, Task, TaskKind};
use vstd::prelude::*;

verus! {

/// The state and all actions after feeding `events` to the engine in order.
pub open spec fn run(s: ServeView, events: Seq<Event>) -> (ServeView, Seq<Action>)
    decreases events.len(),
{
    if events.len() == 0 {
        (s, Seq::empty())
    } else {
        let before = run(s, events.drop_last());
        let last = step_spec(before.0, events.last());
        (last.0, before.1 + last.1)
    }
}

/// Whether the phase lies behind a successful registration.
pub open spec fn past_registration(phase: Phase) -> bool {
    match phase {
        Phase::Ack | Phase::Serving | Phase::Finished => true,
        Phase::Failed(e) => e is Ack || e is Closed || e is Refresh,
        _ => false,
    }
}

/// What holds of every state that a run from the beginning reaches.
pub open spec fn consistent(s: ServeView) -> bool {
    &&& s.registered <==> (s.phase is Ack || s.phase is Serving)
    &&& s.acked ==> s.phase is Serving || (terminal(s.phase) && past_registration(s.phase))
    &&& terminal(s.phase) ==> s.tasks.len() == 0
}

/// Every action that `cancel_actions` gives is a `Cancel`, and in a table
/// whose identifiers fit it names a running task.
pub proof fn lemma_cancel_sound(tasks: Seq<Task>, a: Action)
    requires
        cancel_actions(tasks).contains(a),
    ensures
        a is Cancel,
        tasks.len() <= usize::MAX ==> is_running(tasks, a->Cancel_task),
    decreases tasks.len(),
{
    if tasks.len() > 0 {
        let init = tasks.drop_last();
        let before = cancel_actions(init);
        let all = cancel_actions(tasks);
        let i = choose|i: int| 0 <= i < all.len() && all[i] == a;
        if i < before.len() {
            assert(before[i] == a);
            assert(before.contains(a));
            lemma_cancel_sound(init, a);
        }
    }
}

/// Every running task of a table whose identifiers fit is cancelled.
pub proof fn lemma_cancel_complete(tasks: Seq<Task>, task: usize)
    requires
        tasks.len() <= usize::MAX,
        is_running(tasks, task),
    ensures
        cancel_actions(tasks).contains(Action::Cancel { task }),
    decreases tasks.len(),
{
    let init = tasks.drop_last();
    let before = cancel_actions(init);
    let all = cancel_actions(tasks);
    if task < init.len() {
        assert(is_running(init, task));
        lemma_cancel_complete(init, task);
        let i = choose|i: int| 0 <= i < before.len() && before[i] == Action::Cancel { task };
        assert(all[i] == Action::Cancel { task });
    } else {
        assert(all[before.len() as int] == Action::Cancel { task });
    }
}

/// The acknowledgment is asked for in one place only: on the event that
/// reports a successful registration, in the phase that waits for it.
pub proof fn lemma_ack_follows_registration(s: ServeView, e: Event)
    requires
        step_spec(s, e).1.contains(Action::Ack),
    ensures
        s.phase is Register,
        e == (Event::Registered { ok: true }),
        step_spec(s, e).0.registered,
        step_spec(s, e).0.phase is Ack,
{
    // Every other step ends serving, settles the loop, or asks for
    // something that is not an acknowledgment.
    let acts = step_spec(s, e).1;
    let i = choose|i: int| 0 <= i < acts.len() && acts[i] == Action::Ack;
    lemma_no_ack_in_end(s, Failure::Origin);
    lemma_no_ack_in_end(s, Failure::Register);
    lemma_no_ack_in_end(s, Failure::Ack);
    lemma_no_ack_in_end(s, Failure::Closed);
    if let Event::TaskDone { task, ok } = e {
        lemma_no_ack_in_end(ServeView { tasks: stop(s.tasks, task), ..s }, Failure::Refresh);
    }
    assert(acts[i] == Action::Ack);
}

/// Neither a failure nor a clean end asks for an acknowledgment.
proof fn lemma_no_ack_in_end(s: ServeView, err: Failure)
    ensures
        !fail(s, err).1.contains(Action::Ack),
        forall|acts: Seq<Action>|
            !acts.contains(Action::Ack) ==> !(#[trigger] settle(s, acts)).1.contains(Action::Ack),
{
    let c = cancel_actions(s.tasks);
    let u = unregister_actions(s.registered);
    if (c + u).contains(Action::Ack) {
        let i = choose|i: int| 0 <= i < (c + u).len() && (c + u)[i] == Action::Ack;
        if i < c.len() {
            assert(c.contains(c[i]));
            lemma_cancel_sound(s.tasks, c[i]);
        }
    }
    assert forall|acts: Seq<Action>| !acts.contains(Action::Ack) implies !(#[trigger] settle(
        s,
        acts,
    )).1.contains(Action::Ack) by {
        let r = settle(s, acts).1;
        if r.contains(Action::Ack) {
            let i = choose|i: int| 0 <= i < r.len() && r[i] == Action::Ack;
            if i < acts.len() {
                assert(acts.contains(acts[i]));
            }
        }
    }
}

/// Once serving has ended, no event changes the state or asks for anything.
pub proof fn lemma_end_is_final(s: ServeView, e: Event)
    requires
        terminal(s.phase),
    ensures
        step_spec(s, e) == (s, Seq::<Action>::empty()),
{
}

/// A step keeps a consistent state consistent.
pub proof fn lemma_step_consistent(s: ServeView, e: Event)
    requires
        consistent(s),
    ensures
        consistent(step_spec(s, e).0),
{
    let n = step_spec(s, e).0;
    if s.phase is Serving {
        if let Event::TaskDone { task, ok } = e {
            if is_running(s.tasks, task) {
                assert(n == task_done(s, task, ok).0);
            }
        }
    }
}

/// A failed registration ends serving at once: the registration handle
/// does not exist, the announce is not acknowledged, and no acknowledgment
/// is asked for.
pub proof fn lemma_failed_registration(s: ServeView)
    requires
        consistent(s),
        s.phase is Register,
    ensures
        step_spec(s, Event::Registered { ok: false }).0.phase == Phase::Failed(
            Failure::Register,
        ),
        !step_spec(s, Event::Registered { ok: false }).0.registered,
        !step_spec(s, Event::Registered { ok: false }).0.acked,
        !step_spec(s, Event::Registered { ok: false }).1.contains(Action::Ack),
        !step_spec(s, Event::Registered { ok: false }).1.contains(Action::Unregister),
{
    lemma_no_ack_in_end(s, Failure::Register);
    let c = cancel_actions(s.tasks);
    if c.contains(Action::Unregister) {
        lemma_cancel_sound(s.tasks, Action::Unregister);
    }
    assert(step_spec(s, Event::Registered { ok: false }).1 =~= c);
}

/// Over a whole run from the beginning: the reached state is consistent; an
/// acknowledgment was asked for only if registration succeeded; and a run
/// that ended in a failed registration or a refused origin never asked for
/// one, holds no registration handle, and has not acknowledged the announce.
pub proof fn lemma_register_before_ack(has_api: bool, forwards: usize, events: Seq<Event>)
    ensures
        consistent(run(initial(has_api, forwards), events).0),
        run(initial(has_api, forwards), events).1.contains(Action::Ack) ==> past_registration(
            run(initial(has_api, forwards), events).0.phase,
        ),
        run(initial(has_api, forwards), events).0.acked ==> run(
            initial(has_api, forwards),
            events,
        ).1.contains(Action::Ack),
        run(initial(has_api, forwards), events).0.phase == Phase::Failed(Failure::Register)
            ==> {
            &&& !run(initial(has_api, forwards), events).1.contains(Action::Ack)
            &&& !run(initial(has_api, forwards), events).0.registered
            &&& !run(initial(has_api, forwards), events).0.acked
        },
    decreases events.len(),
{
    let start = initial(has_api, forwards);
    if events.len() > 0 {
        let before = run(start, events.drop_last());
        let e = events.last();
        let last = step_spec(before.0, e);
        lemma_register_before_ack(has_api, forwards, events.drop_last());
        lemma_step_consistent(before.0, e);
        let all = before.1 + last.1;
        assert(run(start, events) == (last.0, all));
        if last.1.contains(Action::Ack) {
            lemma_ack_follows_registration(before.0, e);
        }
        if all.contains(Action::Ack) {
            let i = choose|i: int| 0 <= i < all.len() && all[i] == Action::Ack;
            if i < before.1.len() {
                assert(before.1.contains(before.1[i]));
                lemma_phase_advances(before.0, e);
            } else {
                assert(last.1.contains(last.1[i - before.1.len()]));
            }
        }
        if last.0.acked {
            if before.0.acked {
                let i = choose|i: int| 0 <= i < before.1.len() && before.1[i] == Action::Ack;
                assert(all[i] == Action::Ack);
            } else {
                // The step that acknowledges starts in the phase that waits
                // for it, which lies behind the request for it.
                assert(before.0.phase is Ack);
                lemma_ack_requested(has_api, forwards, events.drop_last());
                let i = choose|i: int| 0 <= i < before.1.len() && before.1[i] == Action::Ack;
                assert(all[i] == Action::Ack);
            }
        }
    }
}

/// Over a whole run from the beginning, the acknowledgment is asked for
/// at most once.
pub proof fn lemma_ack_once(has_api: bool, forwards: usize, events: Seq<Event>, i: int, j: int)
    requires
        0 <= i < run(initial(has_api, forwards), events).1.len(),
        0 <= j < run(initial(has_api, forwards), events).1.len(),
        run(initial(has_api, forwards), events).1[i] == Action::Ack,
        run(initial(has_api, forwards), events).1[j] == Action::Ack,
    ensures
        i == j,
    decreases events.len(),
{
    let start = initial(has_api, forwards);
    if events.len() > 0 {
        let before = run(start, events.drop_last());
        let last = step_spec(before.0, events.last());
        let n = before.1.len();
        if i < n && j < n {
            lemma_ack_once(has_api, forwards, events.drop_last(), i, j);
        } else {
            // One of the two was asked for by the last step, which
            // therefore began before the registration.
            let k = if i < n { j } else { i };
            assert(last.1[k - n] == Action::Ack);
            lemma_ack_follows_registration(before.0, events.last());
            assert(last.1.len() == 1);
            if i < n || j < n {
                let m = if i < n { i } else { j };
                assert(before.1[m] == Action::Ack);
                lemma_register_before_ack(has_api, forwards, events.drop_last());
            }
        }
    }
}

/// If the registration handle existed at any point of a run, the run is
/// behind the registration for good: it cannot end in a failed
/// registration. So a run that ends in a failed registration never held
/// the handle.
pub proof fn lemma_handle_is_remembered(has_api: bool, forwards: usize, events: Seq<Event>, k: int)
    requires
        0 <= k <= events.len(),
        run(initial(has_api, forwards), events.take(k)).0.registered,
    ensures
        past_registration(run(initial(has_api, forwards), events).0.phase),
        run(initial(has_api, forwards), events).0.phase != Phase::Failed(Failure::Register),
    decreases events.len() - k,
{
    let start = initial(has_api, forwards);
    if k == events.len() {
        assert(events.take(k) =~= events);
        lemma_register_before_ack(has_api, forwards, events);
    } else {
        assert(events.drop_last().take(k) =~= events.take(k));
        lemma_handle_is_remembered(has_api, forwards, events.drop_last(), k);
        lemma_phase_advances(run(start, events.drop_last()).0, events.last());
    }
}

/// A step never leads back from behind the registration to before it.
proof fn lemma_phase_advances(s: ServeView, e: Event)
    requires
        past_registration(s.phase),
    ensures
        past_registration(step_spec(s, e).0.phase),
{
    if s.phase is Serving {
        if let Event::TaskDone { task, ok } = e {
            if is_running(s.tasks, task) {
                assert(step_spec(s, e).0 == task_done(s, task, ok).0);
            }
        }
    }
}

/// A run that waits for the acknowledgment has asked for it.
proof fn lemma_ack_requested(has_api: bool, forwards: usize, events: Seq<Event>)
    ensures
        run(initial(has_api, forwards), events).0.phase is Ack ==> run(
            initial(has_api, forwards),
            events,
        ).1.contains(Action::Ack),
    decreases events.len(),
{
    let start = initial(has_api, forwards);
    if events.len() > 0 {
        let before = run(start, events.drop_last());
        let e = events.last();
        let last = step_spec(before.0, e);
        let all = before.1 + last.1;
        lemma_ack_requested(has_api, forwards, events.drop_last());
        if last.0.phase is Ack {
            if before.0.phase is Ack {
                let i = choose|i: int| 0 <= i < before.1.len() && before.1[i] == Action::Ack;
                assert(all[i] == Action::Ack);
            } else {
                if before.0.phase is Serving {
                    lemma_phase_advances_from_serving(before.0, e);
                }
                assert(before.0.phase is Register);
                assert(last.1[0] == Action::Ack);
                assert(all[before.1.len() as int] == Action::Ack);
            }
        }
    }
}

/// From the loop a step leads to the loop or to an end.
proof fn lemma_phase_advances_from_serving(s: ServeView, e: Event)
    requires
        s.phase is Serving,
    ensures
        step_spec(s, e).0.phase is Serving || terminal(step_spec(s, e).0.phase),
{
    if let Event::TaskDone { task, ok } = e {
        if is_running(s.tasks, task) {
            assert(step_spec(s, e).0 == task_done(s, task, ok).0);
        }
    }
}

/// Acknowledging starts one forwarding task per target, whatever becomes
/// of the others: target `i` is handed to the task whose identifier is the
/// table's old length plus `i`.
pub proof fn lemma_every_target_forwarded(s: ServeView, target: usize)
    requires
        s.phase is Ack,
        target < s.forwards,
        s.tasks.len() + s.forwards <= usize::MAX,
    ensures
        step_spec(s, Event::Acked { ok: true }).0.phase is Serving,
        step_spec(s, Event::Acked { ok: true }).1.len() == s.forwards,
        step_spec(s, Event::Acked { ok: true }).1[target as int] == (Action::Forward {
            task: (s.tasks.len() + target) as usize,
            target,
        }),
        step_spec(s, Event::Acked { ok: true }).0.tasks[s.tasks.len() + target] == (Task {
            kind: TaskKind::Forward(target),
            running: true,
        }),
{
}

/// A forwarding task that fails is logged and nothing more: serving does
/// not fail, no task is cancelled, every other running task keeps running,
/// and the registration handle stays for as long as the loop goes on.
pub proof fn lemma_forward_failure_isolated(s: ServeView, task: usize, other: usize)
    requires
        s.phase is Serving,
        is_running(s.tasks, task),
        s.tasks[task as int].kind is Forward,
        other != task,
        is_running(s.tasks, other),
    ensures
        step_spec(s, Event::TaskDone { task, ok: false }).0.phase is Serving,
        step_spec(s, Event::TaskDone { task, ok: false }).0.registered == s.registered,
        step_spec(s, Event::TaskDone { task, ok: false }).0.tasks == stop(s.tasks, task),
        is_running(step_spec(s, Event::TaskDone { task, ok: false }).0.tasks, other),
        step_spec(s, Event::TaskDone { task, ok: false }).0.tasks[other as int]
            == s.tasks[other as int],
        step_spec(s, Event::TaskDone { task, ok: false }).1 == seq![Action::Warn { task }],
{
    let rest = ServeView { tasks: stop(s.tasks, task), ..s };
    assert(rest.tasks[other as int].running);
    assert(any_running(rest.tasks));
}

/// A forwarding task that fails never makes serving fail, with or without
/// other tasks beside it, and no task `t` is cancelled for it.
pub proof fn lemma_forward_failure_not_fatal(s: ServeView, task: usize, t: usize)
    requires
        s.phase is Serving,
        is_running(s.tasks, task),
        s.tasks[task as int].kind is Forward,
    ensures
        !(step_spec(s, Event::TaskDone { task, ok: false }).0.phase is Failed),
        !step_spec(s, Event::TaskDone { task, ok: false }).1.contains(Action::Cancel { task: t }),
{
    let acts = step_spec(s, Event::TaskDone { task, ok: false }).1;
    if acts.contains(Action::Cancel { task: t }) {
        let i = choose|i: int| 0 <= i < acts.len() && acts[i] == Action::Cancel { task: t };
        assert(acts[i] == Action::Cancel { task: t });
    }
}

/// When the announce is closed with an error, serving fails at once: every
/// running child is cancelled, none is left, the registration handle is
/// dropped, and whatever a child reports later has no effect.
pub proof fn lemma_closed_tears_down(s: ServeView, task: usize, later: Event)
    requires
        consistent(s),
        s.phase is Serving,
        s.tasks.len() <= usize::MAX,
    ensures
        step_spec(s, Event::Closed { error: true }).0.phase == Phase::Failed(Failure::Closed),
        !step_spec(s, Event::Closed { error: true }).0.registered,
        step_spec(s, Event::Closed { error: true }).0.tasks.len() == 0,
        !any_running(step_spec(s, Event::Closed { error: true }).0.tasks),
        step_spec(s, Event::Closed { error: true }).1.contains(Action::Unregister),
        is_running(s.tasks, task) <==> step_spec(s, Event::Closed { error: true }).1.contains(
            Action::Cancel { task },
        ),
        step_spec(step_spec(s, Event::Closed { error: true }).0, later) == (
            step_spec(s, Event::Closed { error: true }).0,
            Seq::<Action>::empty(),
        ),
{
    let c = cancel_actions(s.tasks);
    let acts = step_spec(s, Event::Closed { error: true }).1;
    assert(acts =~= c.push(Action::Unregister));
    assert(acts[c.len() as int] == Action::Unregister);
    if is_running(s.tasks, task) {
        lemma_cancel_complete(s.tasks, task);
        let i = choose|i: int| 0 <= i < c.len() && c[i] == Action::Cancel { task };
        assert(acts[i] == Action::Cancel { task });
    }
    if acts.contains(Action::Cancel { task }) {
        let i = choose|i: int| 0 <= i < acts.len() && acts[i] == Action::Cancel { task };
        assert(c[i] == Action::Cancel { task });
        assert(c.contains(Action::Cancel { task }));
        lemma_cancel_sound(s.tasks, Action::Cancel { task });
    }
}

} // verus!
