//! The entry point of the relay: what is to be done with a request.
//!
//! A backend request is prepared for sending; a frontend request is made
//! pending and turned into a task for the user interface. Either way the
//! caller does what the result says and comes back with what happened.

use vstd::prelude::*;
use tokio::sync::oneshot::Sender;
use crate::backend::{plan_backend_request, planned, BackendRequestPlan};
use crate::proxy::{
    begin_delegated, delegates, following, request_id, Delegation, FrontendResponsePayload,
    ProxyError, ProxyRequestPayload, RequestMode, RequestSequence,
};
use crate::registry::{finds, registered, PendingRegistry};

verus! {

/// What is to be done with a request.
pub enum Dispatch {
    /// Send it as planned.
    Send(BackendRequestPlan),
    /// Emit its task to the user interface and wait for the report.
    Delegate(Delegation),
}

/// The plan in the result of a dispatch.
pub open spec fn sending(r: Result<Dispatch, ProxyError>) -> Option<
    Result<BackendRequestPlan, ProxyError>,
> {
    match r {
        Ok(Dispatch::Send(plan)) => Some(Ok(plan)),
        Ok(Dispatch::Delegate(_)) => None,
        Err(e) => Some(Err(e)),
    }
}

/// Decides by the mode of a request what is to be done with it.
///
/// In backend mode the request is planned as `plan_backend_request` plans
/// it, and neither the registry nor the sequence changes. In frontend mode
/// the request is begun as `begin_delegated` begins it: it gets the next
/// identifier and is pending under it, unless that identifier is in use.
pub fn dispatch(
    registry: &mut PendingRegistry,
    sequence: &mut RequestSequence,
    now_ms: u128,
    payload: ProxyRequestPayload,
) -> (r: Result<Dispatch, ProxyError>)
    ensures
        match payload.request_mode {
            RequestMode::Backend => {
                &&& final(registry).waiters() == old(registry).waiters()
                &&& final(sequence).upcoming() == old(sequence).upcoming()
                &&& sending(r) matches Some(plan) && planned(plan, payload)
            },
            RequestMode::Frontend => {
                &&& final(sequence).upcoming() == following(old(sequence).upcoming())
                &&& final(registry).pending() == registered(
                    old(registry).pending(),
                    request_id(now_ms as nat, old(sequence).upcoming() as nat),
                )
                &&& r is Err ==> final(registry).waiters() == old(registry).waiters()
                &&& r is Ok ==> exists|waiter: Sender<FrontendResponsePayload>|
                    final(registry).waiters() == old(registry).waiters().insert(
                        request_id(now_ms as nat, old(sequence).upcoming() as nat),
                        waiter,
                    )
                &&& match r {
                    Ok(Dispatch::Delegate(d)) => !finds(
                        old(registry).pending(),
                        request_id(now_ms as nat, old(sequence).upcoming() as nat),
                    ) && delegates(
                        d,
                        request_id(now_ms as nat, old(sequence).upcoming() as nat),
                        payload,
                    ),
                    Ok(Dispatch::Send(_)) => false,
                    Err(e) => finds(
                        old(registry).pending(),
                        request_id(now_ms as nat, old(sequence).upcoming() as nat),
                    ) && e == ProxyError::RequestIdInUse,
                }
            },
        },
{
    match payload.request_mode {
        RequestMode::Backend => match plan_backend_request(&payload) {
            Ok(plan) => Ok(Dispatch::Send(plan)),
            Err(e) => Err(e),
        },
        RequestMode::Frontend => match begin_delegated(registry, sequence, now_ms, payload) {
            Ok(delegation) => Ok(Dispatch::Delegate(delegation)),
            Err(e) => Err(e),
        },
    }
}

} // verus!
