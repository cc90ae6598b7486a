use cas_relay::dispatch::{dispatch, Dispatch};
use cas_relay::proxy::{
    InvalidRequest, ProxyError, ProxyRequestPayload, RequestMode, RequestSequence,
};
use cas_relay::registry::PendingRegistry;

fn request(mode: RequestMode, method: &str) -> ProxyRequestPayload {
    ProxyRequestPayload {
        request_mode: mode,
        method: method.to_string(),
        url: "http://127.0.0.1:9/unreachable".to_string(),
        headers: None,
        body: None,
        timeout_ms: Some(50),
        follow_redirects: None,
    }
}

#[test]
fn backend_request_is_planned_and_nothing_is_registered() {
    let mut registry = PendingRegistry::new();
    let mut sequence = RequestSequence::new();
    let r = dispatch(&mut registry, &mut sequence, 1, request(RequestMode::Backend, "GET"));
    match r {
        Ok(Dispatch::Send(plan)) => {
            assert_eq!(plan.method.as_str(), "GET");
            assert_eq!(plan.timeout_ms, 50);
            assert_eq!(plan.redirect_limit, 0);
        }
        _ => panic!("a backend request is to be sent"),
    }
    assert_eq!(sequence.take(), 1);
}

#[test]
fn backend_request_with_a_bad_method_is_refused_before_sending() {
    let mut registry = PendingRegistry::new();
    let mut sequence = RequestSequence::new();
    let r = dispatch(&mut registry, &mut sequence, 1, request(RequestMode::Backend, "NOT A METHOD"));
    assert_eq!(
        r.err(),
        Some(ProxyError::InvalidRequestSpec {
            reason: InvalidRequest::Method { method: "NOT A METHOD".to_string() }
        })
    );
}

#[test]
fn frontend_request_is_registered_and_its_method_is_not_judged() {
    let mut registry = PendingRegistry::new();
    let mut sequence = RequestSequence::new();
    let r = dispatch(&mut registry, &mut sequence, 77, request(RequestMode::Frontend, "NOT A METHOD"));
    match r {
        Ok(Dispatch::Delegate(delegation)) => {
            assert_eq!(delegation.task.request_id, "req-77-1");
            assert_eq!(delegation.task.method, "NOT A METHOD");
            assert_eq!(delegation.timeout_ms, 50);
        }
        _ => panic!("a frontend request is to be delegated"),
    }
    assert!(registry.is_pending("req-77-1"));
    assert_eq!(sequence.take(), 2);
}
