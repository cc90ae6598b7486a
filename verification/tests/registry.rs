use cas_relay::proxy::FrontendResponsePayload;
use cas_relay::registry::{delivery, PendingRegistry, RegistryError};

fn report(id: &str, body: &str) -> FrontendResponsePayload {
    FrontendResponsePayload {
        request_id: id.to_string(),
        ok: true,
        status: 200,
        headers: vec![("content-type".to_string(), "text/plain".to_string())],
        body: body.to_string(),
        error: None,
    }
}

#[test]
fn report_reaches_the_waiter() {
    let mut registry = PendingRegistry::new();
    let mut receiver = registry.register("req-1-1".to_string()).unwrap();
    assert!(registry.is_pending("req-1-1"));
    assert!(receiver.try_recv().is_err());
    assert_eq!(registry.resolve(report("req-1-1", "hello")), Ok(()));
    assert!(!registry.is_pending("req-1-1"));
    assert_eq!(receiver.try_recv().unwrap(), report("req-1-1", "hello"));
}

#[test]
fn report_for_an_unknown_request_is_refused() {
    let mut registry = PendingRegistry::new();
    assert_eq!(registry.resolve(report("nobody", "")), Err(RegistryError::UnknownRequest));
    let _receiver = registry.register("a".to_string()).unwrap();
    assert_eq!(registry.resolve(report("b", "")), Err(RegistryError::UnknownRequest));
    assert!(registry.is_pending("a"));
}

#[test]
fn second_report_is_refused() {
    let mut registry = PendingRegistry::new();
    let _receiver = registry.register("a".to_string()).unwrap();
    assert_eq!(registry.resolve(report("a", "first")), Ok(()));
    assert_eq!(registry.resolve(report("a", "second")), Err(RegistryError::UnknownRequest));
}

#[test]
fn cancellation_is_terminal() {
    let mut registry = PendingRegistry::new();
    let mut receiver = registry.register("a".to_string()).unwrap();
    assert!(registry.cancel("a"));
    assert!(!registry.is_pending("a"));
    assert_eq!(registry.resolve(report("a", "late")), Err(RegistryError::UnknownRequest));
    // the waiter learns that no report will come
    assert!(matches!(
        receiver.try_recv(),
        Err(tokio::sync::oneshot::error::TryRecvError::Closed)
    ));
}

#[test]
fn report_then_cancellation_has_one_winner() {
    let mut registry = PendingRegistry::new();
    let mut receiver = registry.register("a".to_string()).unwrap();
    assert_eq!(registry.resolve(report("a", "won")), Ok(()));
    assert!(!registry.cancel("a"));
    assert_eq!(receiver.try_recv().unwrap().body, "won");
}

#[test]
fn cancellation_then_report_has_one_winner() {
    let mut registry = PendingRegistry::new();
    let mut receiver = registry.register("a".to_string()).unwrap();
    assert!(registry.cancel("a"));
    assert_eq!(registry.resolve(report("a", "lost")), Err(RegistryError::UnknownRequest));
    assert!(receiver.try_recv().is_err());
}

#[test]
fn cancelling_twice_changes_nothing_more() {
    let mut registry = PendingRegistry::new();
    let _a = registry.register("a".to_string()).unwrap();
    let _b = registry.register("b".to_string()).unwrap();
    assert!(registry.cancel("a"));
    assert!(!registry.cancel("a"));
    assert!(!registry.cancel("never"));
    assert!(registry.is_pending("b"));
}

#[test]
fn identifier_cannot_be_pending_twice() {
    let mut registry = PendingRegistry::new();
    let mut first = registry.register("a".to_string()).unwrap();
    assert_eq!(registry.register("a".to_string()).unwrap_err(), RegistryError::AlreadyPending);
    // the first registration stands
    assert_eq!(registry.resolve(report("a", "x")), Ok(()));
    assert_eq!(first.try_recv().unwrap().body, "x");
    // and the identifier is free again
    assert!(registry.register("a".to_string()).is_ok());
}

#[test]
fn report_for_a_waiter_that_left_is_not_delivered() {
    let mut registry = PendingRegistry::new();
    let receiver = registry.register("a".to_string()).unwrap();
    drop(receiver);
    assert_eq!(registry.resolve(report("a", "x")), Err(RegistryError::UnknownRequest));
    assert!(!registry.is_pending("a"));
    assert_eq!(delivery(Ok(())), Ok(()));
    assert_eq!(delivery(Err(report("a", "x"))), Err(RegistryError::UnknownRequest));
}

#[test]
fn requests_are_independent() {
    let mut registry = PendingRegistry::new();
    let mut a = registry.register("a".to_string()).unwrap();
    let mut b = registry.register("b".to_string()).unwrap();
    let mut c = registry.register("c".to_string()).unwrap();
    assert_eq!(registry.resolve(report("b", "B")), Ok(()));
    assert!(a.try_recv().is_err());
    assert_eq!(b.try_recv().unwrap().body, "B");
    assert!(registry.is_pending("a"));
    assert!(registry.is_pending("c"));
    assert_eq!(registry.resolve(report("c", "C")), Ok(()));
    assert_eq!(registry.resolve(report("a", "A")), Ok(()));
    assert_eq!(a.try_recv().unwrap().body, "A");
    assert_eq!(c.try_recv().unwrap().body, "C");
}

#[test]
fn claimed_sender_is_the_one_that_was_registered() {
    let mut registry = PendingRegistry::new();
    let mut a = registry.register("a".to_string()).unwrap();
    let mut b = registry.register("b".to_string()).unwrap();
    let (sender, claimed) = registry.claim(report("a", "for a")).ok().unwrap();
    assert_eq!(claimed, report("a", "for a"));
    assert!(!registry.is_pending("a"));
    assert!(registry.is_pending("b"));
    // nothing was sent yet, and nothing was dropped
    assert!(matches!(a.try_recv(), Err(tokio::sync::oneshot::error::TryRecvError::Empty)));
    assert!(matches!(b.try_recv(), Err(tokio::sync::oneshot::error::TryRecvError::Empty)));
    assert!(sender.send(claimed).is_ok());
    assert_eq!(a.try_recv().unwrap(), report("a", "for a"));
    assert!(matches!(b.try_recv(), Err(tokio::sync::oneshot::error::TryRecvError::Empty)));
    assert_eq!(registry.claim(report("a", "again")).err(), Some(RegistryError::UnknownRequest));
    assert_eq!(registry.claim(report("c", "never")).err(), Some(RegistryError::UnknownRequest));
    assert!(registry.is_pending("b"));
}

#[test]
fn report_leaves_the_other_waiters_waiting() {
    let mut registry = PendingRegistry::new();
    let mut receivers: Vec<_> =
        (0..20).map(|i| registry.register(format!("req-{}", i)).unwrap()).collect();
    assert_eq!(registry.resolve(report("req-7", "seven")), Ok(()));
    assert!(registry.cancel("req-3"));
    assert_eq!(registry.resolve(report("req-99", "none")), Err(RegistryError::UnknownRequest));
    for (i, receiver) in receivers.iter_mut().enumerate() {
        match i {
            7 => assert_eq!(receiver.try_recv().unwrap().body, "seven"),
            3 => assert!(matches!(
                receiver.try_recv(),
                Err(tokio::sync::oneshot::error::TryRecvError::Closed)
            )),
            _ => {
                assert!(matches!(
                    receiver.try_recv(),
                    Err(tokio::sync::oneshot::error::TryRecvError::Empty)
                ));
                assert!(registry.is_pending(&format!("req-{}", i)));
            }
        }
    }
    // each of the others still gets its own report, and only its own
    for i in [0usize, 19, 8] {
        let body = format!("body {}", i);
        assert_eq!(registry.resolve(report(&format!("req-{}", i), &body)), Ok(()));
        assert_eq!(receivers[i].try_recv().unwrap().body, body);
    }
}
