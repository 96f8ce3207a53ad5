use moq_relay::relay::consumer::Consumer;
use moq_relay::relay::listen::{Listen, ListenAction, ListenEvent};
use moq_relay::relay::serve::{Action, Event, Failure, Phase, Serve, Wants};
use moq_relay::relay::task::{Task, TaskKind};

fn serving(has_api: bool, forwards: usize) -> Serve {
    let mut s = Serve::new(has_api, forwards);
    s.step(Event::Start);
    if has_api {
        s.step(Event::OriginSet { ok: true });
    }
    s.step(Event::Registered { ok: true });
    s.step(Event::Acked { ok: true });
    assert_eq!(s.phase(), Phase::Serving);
    s
}

#[test]
fn consumer_keeps_what_it_is_given() {
    let c = Consumer::new("remote", 7u8, Some('a'), vec![1u32, 2, 3]);
    assert_eq!(c.remote, "remote");
    assert_eq!(c.locals, 7);
    assert_eq!(c.api, Some('a'));
    assert_eq!(c.forwards, vec![1, 2, 3]);
}

#[test]
fn consumer_serves_with_its_own_configuration() {
    let c = Consumer::new((), (), Some(()), vec![(), ()]);
    let mut s = c.serve();
    assert_eq!(s.phase(), Phase::Idle);
    assert_eq!(s.step(Event::Start), vec![Action::SetOrigin]);
    s.step(Event::OriginSet { ok: true });
    s.step(Event::Registered { ok: true });
    assert_eq!(
        s.step(Event::Acked { ok: true }),
        vec![
            Action::Forward { task: 1, target: 0 },
            Action::Forward { task: 2, target: 1 }
        ]
    );

    let c = Consumer::new((), (), None::<()>, Vec::<()>::new());
    let mut s = c.serve();
    assert_eq!(s.step(Event::Start), vec![Action::Register]);
    let l = c.run();
    assert!(l.wants_announce());
    assert!(!l.wants_task());
}

#[test]
fn serve_without_origin_registers_then_acks() {
    let mut s = Serve::new(false, 0);
    assert_eq!(s.phase(), Phase::Idle);
    assert_eq!(s.outcome(), None);
    assert_eq!(s.step(Event::Start), vec![Action::Register]);
    assert_eq!(s.phase(), Phase::Register);
    assert!(!s.registered());
    assert_eq!(s.step(Event::Registered { ok: true }), vec![Action::Ack]);
    assert!(s.registered());
    assert!(!s.acked());
    assert_eq!(s.step(Event::Acked { ok: true }), vec![]);
    assert!(s.acked());
    assert_eq!(s.phase(), Phase::Serving);
    assert_eq!(
        s.wants(),
        Wants { closed: true, request: true, task: false }
    );
}

#[test]
fn serve_with_origin_starts_the_refresh_before_registering() {
    let mut s = Serve::new(true, 0);
    assert_eq!(s.step(Event::Start), vec![Action::SetOrigin]);
    assert_eq!(s.phase(), Phase::Origin);
    assert_eq!(
        s.step(Event::OriginSet { ok: true }),
        vec![Action::Refresh { task: 0 }, Action::Register]
    );
    assert_eq!(
        s.task(0),
        Some(Task { kind: TaskKind::Refresh, running: true })
    );
    assert_eq!(s.task(1), None);
}

#[test]
fn refused_origin_fails_before_registration() {
    let mut s = Serve::new(true, 2);
    s.step(Event::Start);
    assert_eq!(s.step(Event::OriginSet { ok: false }), vec![]);
    assert_eq!(s.phase(), Phase::Failed(Failure::Origin));
    assert_eq!(s.outcome(), Some(Err(Failure::Origin)));
    assert!(!s.registered());
    assert!(!s.acked());
}

#[test]
fn failed_registration_is_never_acknowledged() {
    let mut s = Serve::new(true, 3);
    let mut all: Vec<Action> = Vec::new();
    all.extend(s.step(Event::Start));
    all.extend(s.step(Event::OriginSet { ok: true }));
    let failed = s.step(Event::Registered { ok: false });
    assert_eq!(failed, vec![Action::Cancel { task: 0 }]);
    all.extend(failed);
    assert_eq!(s.phase(), Phase::Failed(Failure::Register));
    assert!(!s.registered());
    assert!(!s.acked());
    all.extend(s.step(Event::Acked { ok: true }));
    all.extend(s.step(Event::Registered { ok: true }));
    all.extend(s.step(Event::Request));
    all.extend(s.step(Event::TaskDone { task: 0, ok: true }));
    assert!(!all.contains(&Action::Ack));
    assert!(!all.contains(&Action::Unregister));
    assert!(!s.registered());
    assert!(!s.acked());
    assert_eq!(s.outcome(), Some(Err(Failure::Register)));
}

#[test]
fn failed_acknowledgment_drops_the_registration() {
    let mut s = Serve::new(false, 1);
    s.step(Event::Start);
    s.step(Event::Registered { ok: true });
    assert_eq!(s.step(Event::Acked { ok: false }), vec![Action::Unregister]);
    assert_eq!(s.phase(), Phase::Failed(Failure::Ack));
    assert!(!s.registered());
    assert!(!s.acked());
}

#[test]
fn one_failing_forward_leaves_the_others_alone() {
    let mut s = Serve::new(false, 3);
    s.step(Event::Start);
    s.step(Event::Registered { ok: true });
    assert_eq!(
        s.step(Event::Acked { ok: true }),
        vec![
            Action::Forward { task: 0, target: 0 },
            Action::Forward { task: 1, target: 1 },
            Action::Forward { task: 2, target: 2 },
        ]
    );
    assert_eq!(
        s.step(Event::TaskDone { task: 1, ok: false }),
        vec![Action::Warn { task: 1 }]
    );
    assert_eq!(s.phase(), Phase::Serving);
    assert!(s.registered());
    assert_eq!(s.outcome(), None);
    assert_eq!(
        s.task(0),
        Some(Task { kind: TaskKind::Forward(0), running: true })
    );
    assert_eq!(
        s.task(1),
        Some(Task { kind: TaskKind::Forward(1), running: false })
    );
    assert_eq!(
        s.task(2),
        Some(Task { kind: TaskKind::Forward(2), running: true })
    );
    assert_eq!(s.step(Event::TaskDone { task: 0, ok: true }), vec![]);
    assert_eq!(s.step(Event::TaskDone { task: 2, ok: true }), vec![]);
    assert_eq!(s.phase(), Phase::Serving);
    assert!(s.registered());
}

#[test]
fn closed_announce_tears_everything_down() {
    let mut s = serving(true, 2);
    assert_eq!(s.step(Event::Request), vec![Action::Subscribe { task: 3 }]);
    assert_eq!(s.step(Event::TaskDone { task: 1, ok: true }), vec![]);
    let actions = s.step(Event::Closed { error: true });
    assert_eq!(
        actions,
        vec![
            Action::Cancel { task: 0 },
            Action::Cancel { task: 2 },
            Action::Cancel { task: 3 },
            Action::Unregister,
        ]
    );
    assert_eq!(s.phase(), Phase::Failed(Failure::Closed));
    assert_eq!(s.outcome(), Some(Err(Failure::Closed)));
    assert!(!s.registered());
    assert_eq!(s.task(0), None);
    assert_eq!(
        s.wants(),
        Wants { closed: false, request: false, task: false }
    );
    assert_eq!(s.step(Event::TaskDone { task: 0, ok: true }), vec![]);
    assert_eq!(s.step(Event::TaskDone { task: 3, ok: false }), vec![]);
    assert_eq!(s.step(Event::Request), vec![]);
    assert_eq!(s.phase(), Phase::Failed(Failure::Closed));
}

#[test]
fn failed_refresh_is_fatal() {
    let mut s = serving(true, 1);
    assert_eq!(
        s.step(Event::TaskDone { task: 0, ok: false }),
        vec![Action::Cancel { task: 1 }, Action::Unregister]
    );
    assert_eq!(s.phase(), Phase::Failed(Failure::Refresh));
    assert!(!s.registered());
}

#[test]
fn finished_refresh_is_not_an_error() {
    let mut s = serving(true, 0);
    assert_eq!(s.step(Event::TaskDone { task: 0, ok: true }), vec![]);
    assert_eq!(s.phase(), Phase::Serving);
    assert!(s.registered());
}

#[test]
fn subscribe_releases_the_track_when_it_completes() {
    let mut s = serving(false, 0);
    assert_eq!(s.step(Event::Request), vec![Action::Subscribe { task: 0 }]);
    assert_eq!(s.step(Event::Request), vec![Action::Subscribe { task: 1 }]);
    assert_eq!(
        s.task(1),
        Some(Task { kind: TaskKind::Subscribe, running: true })
    );
    assert_eq!(
        s.step(Event::TaskDone { task: 1, ok: false }),
        vec![Action::Warn { task: 1 }, Action::Remove { task: 1 }]
    );
    assert_eq!(
        s.step(Event::TaskDone { task: 0, ok: true }),
        vec![Action::Remove { task: 0 }]
    );
    assert_eq!(s.phase(), Phase::Serving);
    assert_eq!(s.step(Event::TaskDone { task: 0, ok: true }), vec![]);
    assert_eq!(s.step(Event::TaskDone { task: 9, ok: true }), vec![]);
}

#[test]
fn serving_ends_when_nothing_is_left_to_wait_for() {
    let mut s = serving(false, 1);
    assert_eq!(s.step(Event::Request), vec![Action::Subscribe { task: 1 }]);
    assert_eq!(s.step(Event::Closed { error: false }), vec![]);
    assert_eq!(
        s.wants(),
        Wants { closed: false, request: true, task: true }
    );
    assert_eq!(s.step(Event::RequestsEnded), vec![]);
    assert_eq!(s.step(Event::Request), vec![]);
    assert_eq!(s.step(Event::TaskDone { task: 0, ok: true }), vec![]);
    assert_eq!(s.phase(), Phase::Serving);
    assert_eq!(
        s.step(Event::TaskDone { task: 1, ok: true }),
        vec![Action::Remove { task: 1 }, Action::Unregister]
    );
    assert_eq!(s.phase(), Phase::Finished);
    assert_eq!(s.outcome(), Some(Ok(())));
    assert!(!s.registered());
    assert!(s.acked());
}

#[test]
fn events_out_of_turn_change_nothing() {
    let mut s = Serve::new(true, 1);
    assert_eq!(s.step(Event::Registered { ok: true }), vec![]);
    assert_eq!(s.step(Event::Acked { ok: true }), vec![]);
    assert_eq!(s.step(Event::Closed { error: true }), vec![]);
    assert_eq!(s.step(Event::TaskDone { task: 0, ok: false }), vec![]);
    assert_eq!(s.phase(), Phase::Idle);
    assert!(!s.registered());
    assert!(!s.acked());
    s.step(Event::Start);
    assert_eq!(s.step(Event::Start), vec![]);
    assert_eq!(s.phase(), Phase::Origin);
}

#[test]
fn listen_spawns_one_serve_per_announce() {
    let mut l = Listen::new();
    assert!(l.wants_announce());
    assert!(!l.wants_task());
    assert!(!l.is_over());
    assert_eq!(
        l.step(ListenEvent::Announce),
        vec![ListenAction::Serve { task: 0 }]
    );
    assert_eq!(
        l.step(ListenEvent::Announce),
        vec![ListenAction::Serve { task: 1 }]
    );
    assert!(l.wants_task());
}

#[test]
fn listen_ends_only_when_source_and_tasks_are_exhausted() {
    let mut l = Listen::new();
    l.step(ListenEvent::Announce);
    l.step(ListenEvent::Announce);
    assert_eq!(l.step(ListenEvent::ServeDone { task: 0, ok: true }), vec![]);
    assert!(!l.is_over());
    assert_eq!(l.step(ListenEvent::AnnouncesEnded), vec![]);
    assert!(!l.wants_announce());
    assert!(l.wants_task());
    assert!(!l.is_over());
    assert_eq!(l.step(ListenEvent::Announce), vec![]);
    assert_eq!(
        l.step(ListenEvent::ServeDone { task: 1, ok: false }),
        vec![ListenAction::Warn { task: 1 }]
    );
    assert!(l.is_over());
    assert_eq!(l.step(ListenEvent::ServeDone { task: 1, ok: false }), vec![]);
    assert!(l.is_over());
}

#[test]
fn listen_with_no_announce_ends_with_the_source() {
    let mut l = Listen::new();
    l.step(ListenEvent::ServeDone { task: 0, ok: true });
    assert!(!l.is_over());
    l.step(ListenEvent::AnnouncesEnded);
    assert!(l.is_over());
}
