use sweeper::decode::ScheduleRequest;
use sweeper::persist::{PersistAction, PersistEvent, Persister};
use sweeper::retry::RetryBudget;

fn request(path: &str, expire_at: i32) -> ScheduleRequest {
    ScheduleRequest {
        path: path.to_string(),
        attribute_name: "user.expire_at".to_string(),
        expire_at,
    }
}

fn budget(limit: u32, failures: u32) -> RetryBudget {
    RetryBudget { limit, failures }
}

#[test]
fn persister_starts_idle_with_nothing_pending() {
    assert_eq!(Persister::new(3), Persister::Idle { budget: budget(3, 0), pending: None });
}

#[test]
fn round_asks_the_queue_and_sleeps_when_it_is_empty() {
    let (persister, action) = Persister::new(3).step(PersistEvent::Wake { running: true });
    assert_eq!(action, PersistAction::Receive);
    assert_eq!(persister, Persister::Receiving { budget: budget(3, 0) });
    let (persister, action) = persister.step(PersistEvent::Received { request: None });
    assert_eq!(action, PersistAction::Sleep);
    assert_eq!(persister, Persister::Idle { budget: budget(3, 0), pending: None });
}

#[test]
fn received_request_is_stored() {
    let (persister, action) = Persister::Receiving { budget: budget(3, 0) }
        .step(PersistEvent::Received { request: Some(request("/a", 5)) });
    assert_eq!(action, PersistAction::Insert { request: request("/a", 5) });
    assert_eq!(persister, Persister::Storing { budget: budget(3, 0), request: request("/a", 5) });
    let (persister, action) = persister.step(PersistEvent::Stored { ok: true });
    assert_eq!(action, PersistAction::Sleep);
    assert_eq!(persister, Persister::Idle { budget: budget(3, 0), pending: None });
}

#[test]
fn request_that_was_not_stored_is_tried_again() {
    let (persister, action) = Persister::Storing { budget: budget(3, 0), request: request("/a", 5) }
        .step(PersistEvent::Stored { ok: false });
    assert_eq!(action, PersistAction::Sleep);
    assert_eq!(
        persister,
        Persister::Idle { budget: budget(3, 1), pending: Some(request("/a", 5)) }
    );
    let (persister, action) = persister.step(PersistEvent::Wake { running: true });
    assert_eq!(action, PersistAction::Insert { request: request("/a", 5) });
    let (persister, action) = persister.step(PersistEvent::Stored { ok: true });
    assert_eq!(action, PersistAction::Sleep);
    assert_eq!(persister, Persister::Idle { budget: budget(3, 0), pending: None });
}

#[test]
fn persister_gives_up_after_too_many_failures_in_a_row() {
    let mut persister = Persister::Storing { budget: budget(2, 0), request: request("/a", 5) };
    for _ in 0..2 {
        let (next, action) = persister.step(PersistEvent::Stored { ok: false });
        assert_eq!(action, PersistAction::Sleep);
        let (next, action) = next.step(PersistEvent::Wake { running: true });
        assert_eq!(action, PersistAction::Insert { request: request("/a", 5) });
        persister = next;
    }
    let (persister, action) = persister.step(PersistEvent::Stored { ok: false });
    assert_eq!((persister, action), (Persister::Failed, PersistAction::Abort));
    let (persister, action) = Persister::Failed.step(PersistEvent::Wake { running: true });
    assert_eq!((persister, action), (Persister::Failed, PersistAction::Abort));
}

#[test]
fn persister_stops_when_the_process_is_stopping() {
    let states = vec![
        Persister::new(1),
        Persister::Idle { budget: budget(1, 1), pending: Some(request("/a", 5)) },
        Persister::Receiving { budget: budget(1, 0) },
        Persister::Storing { budget: budget(1, 0), request: request("/a", 5) },
        Persister::Stopped,
    ];
    for state in states {
        let (persister, action) = state.step(PersistEvent::Wake { running: false });
        assert_eq!((persister, action), (Persister::Stopped, PersistAction::Stop));
    }
}

#[test]
fn stopped_persister_asks_for_nothing_more() {
    let events = vec![
        PersistEvent::Wake { running: true },
        PersistEvent::Received { request: Some(request("/a", 5)) },
        PersistEvent::Received { request: None },
        PersistEvent::Stored { ok: true },
        PersistEvent::Stored { ok: false },
    ];
    for event in events {
        let (persister, action) = Persister::Stopped.step(event);
        assert_eq!((persister, action), (Persister::Stopped, PersistAction::Stop));
    }
}

#[test]
fn report_that_answers_nothing_keeps_the_pending_request() {
    let (persister, action) = Persister::Storing { budget: budget(3, 1), request: request("/a", 5) }
        .step(PersistEvent::Received { request: None });
    assert_eq!(action, PersistAction::Sleep);
    assert_eq!(
        persister,
        Persister::Idle { budget: budget(3, 1), pending: Some(request("/a", 5)) }
    );
    let (persister, action) = persister.step(PersistEvent::Stored { ok: true });
    assert_eq!(action, PersistAction::Sleep);
    assert_eq!(
        persister,
        Persister::Idle { budget: budget(3, 1), pending: Some(request("/a", 5)) }
    );
}
