//! Relaying one HTTP request for a user interface.
//!
//! A request is either sent by this process (backend mode) or handed to the
//! user interface, which sends it and reports back (frontend mode). This
//! module holds what both paths decide and compute; sending, waiting and
//! emitting events are the caller's part.

use vstd::prelude::*;
use tokio::sync::oneshot::{Receiver, Sender};
use crate::decimal::{
    decimal, is_digit, lemma_decimal_is_digits, lemma_decimal_is_injective, push_decimal,
};
use crate::registry::{finds, registered, removed, PendingRegistry};

verus! {

/// The timeout of a request that names none, in milliseconds.
pub const DEFAULT_TIMEOUT_MS: u64 = 30_000;

/// How many redirects a backend request follows when it follows any.
pub const MAX_REDIRECTS: usize = 10;

/// Who sends the request.
#[derive(Clone, Copy, Debug, PartialEq, Eq, Structural)]
pub enum RequestMode {
    Frontend,
    Backend,
}

/// A request as the user interface describes it.
#[derive(Clone, Debug, PartialEq, Eq)]
pub struct ProxyRequestPayload {
    pub request_mode: RequestMode,
    pub method: String,
    pub url: String,
    pub headers: Option<Vec<(String, String)>>,
    pub body: Option<String>,
    pub timeout_ms: Option<u64>,
    pub follow_redirects: Option<bool>,
}

/// The answer to a request, whichever path produced it.
#[derive(Clone, Debug, PartialEq, Eq)]
pub struct ProxyResponsePayload {
    pub ok: bool,
    pub status: u16,
    pub headers: Vec<(String, String)>,
    pub body: String,
    pub error: Option<String>,
}

/// A request handed to the user interface.
#[derive(Clone, Debug, PartialEq, Eq)]
pub struct FrontendRequestTask {
    pub request_id: String,
    pub method: String,
    pub url: String,
    pub headers: Option<Vec<(String, String)>>,
    pub body: Option<String>,
    pub timeout_ms: Option<u64>,
    pub follow_redirects: Option<bool>,
}

/// What the user interface reports for a request that was handed to it.
#[derive(Clone, Debug, PartialEq, Eq)]
pub struct FrontendResponsePayload {
    pub request_id: String,
    pub ok: bool,
    pub status: u16,
    pub headers: Vec<(String, String)>,
    pub body: String,
    pub error: Option<String>,
}

/// The identifier made of a time in milliseconds and a sequence number.
pub open spec fn request_id(now_ms: nat, seq: nat) -> Seq<char> {
    "req-"@ + decimal(now_ms) + "-"@ + decimal(seq)
}

/// Requests with different times or different sequence numbers have
/// different identifiers. So the identifiers that one sequence hands out
/// differ from each other until the sequence starts over.
pub proof fn lemma_request_ids_differ(now_a: nat, seq_a: nat, now_b: nat, seq_b: nat)
    requires
        now_a != now_b || seq_a != seq_b,
    ensures
        request_id(now_a, seq_a) != request_id(now_b, seq_b),
{
    reveal_strlit("req-");
    reveal_strlit("-");
    let a = request_id(now_a, seq_a);
    let b = request_id(now_b, seq_b);
    let ta = decimal(now_a);
    let tb = decimal(now_b);
    let sa = decimal(seq_a);
    let sb = decimal(seq_b);
    lemma_decimal_is_digits(now_a);
    lemma_decimal_is_digits(now_b);
    lemma_decimal_is_digits(seq_a);
    lemma_decimal_is_digits(seq_b);
    if a == b {
        assert(a.len() == 4 + ta.len() + 1 + sa.len());
        assert(b.len() == 4 + tb.len() + 1 + sb.len());
        assert forall|i: int| 0 <= i < ta.len() implies a[4 + i] == ta[i] by {}
        assert forall|i: int| 0 <= i < tb.len() implies b[4 + i] == tb[i] by {}
        assert(a[4 + ta.len() as int] == '-');
        assert(b[4 + tb.len() as int] == '-');
        if ta.len() < tb.len() {
            assert(b[4 + ta.len() as int] == tb[ta.len() as int]);
            assert(is_digit(tb[ta.len() as int]));
        }
        if tb.len() < ta.len() {
            assert(a[4 + tb.len() as int] == ta[tb.len() as int]);
            assert(is_digit(ta[tb.len() as int]));
        }
        assert(ta.len() == tb.len());
        assert(ta =~= tb) by {
            assert forall|i: int| 0 <= i < ta.len() implies ta[i] == tb[i] by {
                assert(a[4 + i] == ta[i]);
                assert(b[4 + i] == tb[i]);
            }
        }
        assert(sa =~= sb) by {
            assert forall|i: int| 0 <= i < sa.len() implies sa[i] == sb[i] by {
                assert(a[5 + ta.len() + i] == sa[i]);
                assert(b[5 + tb.len() + i] == sb[i]);
            }
        }
        lemma_decimal_is_injective(now_a, now_b);
        lemma_decimal_is_injective(seq_a, seq_b);
    }
}

/// Writes the identifier of a request: `req-`, the time in milliseconds, `-`
/// and the sequence number, both in decimal digits.
pub fn next_request_id(now_ms: u128, seq: u64) -> (r: String)
    ensures
        r@ == request_id(now_ms as nat, seq as nat),
{
    let mut out = "req-".to_owned();
    push_decimal(&mut out, now_ms);
    out.append("-");
    push_decimal(&mut out, seq as u128);
    out
}

/// The sequence numbers of one process: each is handed out once, in order.
pub struct RequestSequence {
    next: u64,
}

impl RequestSequence {
    /// The number that the next request gets.
    pub closed spec fn upcoming(&self) -> u64 {
        self.next
    }

    /// A sequence that begins at 1.
    pub fn new() -> (r: RequestSequence)
        ensures
            r.upcoming() == 1,
    {
        RequestSequence { next: 1 }
    }

    /// Hands out the upcoming number and moves on by one, back to 0 after
    /// the largest.
    pub fn take(&mut self) -> (r: u64)
        ensures
            r == old(self).upcoming(),
            final(self).upcoming() == following(r),
    {
        let seq = self.next;
        self.next = seq.wrapping_add(1);
        seq
    }

    /// Writes the identifier of the next request, made at time `now_ms`.
    pub fn next_id(&mut self, now_ms: u128) -> (r: String)
        ensures
            r@ == request_id(now_ms as nat, old(self).upcoming() as nat),
            final(self).upcoming() == following(old(self).upcoming()),
    {
        let seq = self.take();
        next_request_id(now_ms, seq)
    }
}

/// The timeout that holds for a request: its own, or the default.
pub fn effective_timeout_ms(timeout_ms: Option<u64>) -> (r: u64)
    ensures
        r == match timeout_ms {
            Some(t) => t,
            None => DEFAULT_TIMEOUT_MS,
        },
{
    match timeout_ms {
        Some(t) => t,
        None => DEFAULT_TIMEOUT_MS,
    }
}

/// How many redirects a backend request may follow: `MAX_REDIRECTS` if it
/// asks for redirects to be followed, none otherwise.
pub fn redirect_limit(follow_redirects: Option<bool>) -> (r: usize)
    ensures
        r == if follow_redirects == Some(true) {
            MAX_REDIRECTS
        } else {
            0
        },
{
    match follow_redirects {
        Some(true) => MAX_REDIRECTS,
        _ => 0,
    }
}

/// The task that hands a request to the user interface under `request_id`.
pub fn delegated_task(request_id: String, payload: ProxyRequestPayload) -> (task:
    FrontendRequestTask)
    ensures
        task.request_id == request_id,
        task.method == payload.method,
        task.url == payload.url,
        task.headers == payload.headers,
        task.body == payload.body,
        task.timeout_ms == payload.timeout_ms,
        task.follow_redirects == payload.follow_redirects,
{
    FrontendRequestTask {
        request_id,
        method: payload.method,
        url: payload.url,
        headers: payload.headers,
        body: payload.body,
        timeout_ms: payload.timeout_ms,
        follow_redirects: payload.follow_redirects,
    }
}

/// The answer that a report of the user interface amounts to.
pub fn delegated_response(result: FrontendResponsePayload) -> (r: ProxyResponsePayload)
    ensures
        r.ok == result.ok,
        r.status == result.status,
        r.headers == result.headers,
        r.body == result.body,
        r.error == result.error,
{
    ProxyResponsePayload {
        ok: result.ok,
        status: result.status,
        headers: result.headers,
        body: result.body,
        error: result.error,
    }
}

/// The answer to a backend request that got a response: it counts as `ok`
/// exactly when the status is at least 200 and below 300.
pub fn backend_response(status: u16, headers: Vec<(String, String)>, body: String) -> (r:
    ProxyResponsePayload)
    ensures
        r.ok == (200 <= status < 300),
        r.status == status,
        r.headers == headers,
        r.body == body,
        r.error is None,
{
    ProxyResponsePayload { ok: 200 <= status && status < 300, status, headers, body, error: None }
}

/// The error of a backend request that got no response, for the reason
/// that the client gave.
pub open spec fn failure_message(reason: Seq<char>) -> Seq<char> {
    "backend requester failed: "@ + reason
}

/// The answer to a backend request that got no response: not `ok`, status
/// 0, no headers, an empty body, and the reason in its error.
pub fn failure_response(reason: &str) -> (r: ProxyResponsePayload)
    ensures
        !r.ok,
        r.status == 0,
        r.headers@.len() == 0,
        r.body@.len() == 0,
        r.error matches Some(e) && e@ == failure_message(reason@),
{
    let mut error = "backend requester failed: ".to_owned();
    error.append(reason);
    ProxyResponsePayload {
        ok: false,
        status: 0,
        headers: Vec::new(),
        body: String::new(),
        error: Some(error),
    }
}

/// What is wrong with the description of a backend request.
#[derive(Clone, Debug, PartialEq, Eq)]
pub enum InvalidRequest {
    /// The method is no HTTP token.
    Method { method: String },
    /// The name of a header is no HTTP token.
    HeaderName { name: String },
    /// The value of the header `name` holds a control character.
    HeaderValue { name: String },
    /// The headers fill more names than a header map takes: the map refused
    /// to grow.
    TooManyHeaders,
}

/// Why a request got no answer.
#[derive(Clone, Debug, PartialEq, Eq)]
pub enum ProxyError {
    /// The description of a backend request cannot be sent as it is.
    InvalidRequestSpec { reason: InvalidRequest },
    /// The identifier of a request is in use by a pending one.
    RequestIdInUse,
    /// The task could not be handed to the user interface.
    EmissionFailed { detail: String },
    /// The user interface did not report within the timeout.
    DelegateTimeout { timeout_ms: u64 },
    /// The request was given up before a report arrived.
    DelegateChannelClosed,
    /// A report names a request for which nobody waits: it is not pending,
    /// or whoever waited for it has given up.
    UnknownRequest,
}

/// The message of an invalid description.
pub open spec fn invalid_request_message(reason: InvalidRequest) -> Seq<char> {
    match reason {
        InvalidRequest::Method { method } => "invalid method `"@ + method@
            + "`: invalid HTTP method"@,
        InvalidRequest::HeaderName { name } => "invalid header name `"@ + name@
            + "`: invalid HTTP header name"@,
        InvalidRequest::HeaderValue { name } => "invalid header value for `"@ + name@
            + "`: failed to parse header value"@,
        InvalidRequest::TooManyHeaders => "too many headers"@,
    }
}

/// The message of an error.
pub open spec fn proxy_error_message(e: ProxyError) -> Seq<char> {
    match e {
        ProxyError::InvalidRequestSpec { reason } => "backend requester failed: "@
            + invalid_request_message(reason),
        ProxyError::RequestIdInUse => "frontend request id is in use"@,
        ProxyError::EmissionFailed { detail } => "emit frontend task failed: "@ + detail@,
        ProxyError::DelegateTimeout { timeout_ms } => "frontend requester timeout ("@ + decimal(
            timeout_ms as nat,
        ) + "ms)"@,
        ProxyError::DelegateChannelClosed => "frontend requester channel closed"@,
        ProxyError::UnknownRequest => "no pending frontend request found"@,
    }
}

impl InvalidRequest {
    /// The message of the invalid description.
    pub fn message(&self) -> (r: String)
        ensures
            r@ == invalid_request_message(*self),
    {
        match self {
            InvalidRequest::Method { method } => {
                let mut out = "invalid method `".to_owned();
                out.append(method.as_str());
                out.append("`: invalid HTTP method");
                out
            },
            InvalidRequest::HeaderName { name } => {
                let mut out = "invalid header name `".to_owned();
                out.append(name.as_str());
                out.append("`: invalid HTTP header name");
                out
            },
            InvalidRequest::HeaderValue { name } => {
                let mut out = "invalid header value for `".to_owned();
                out.append(name.as_str());
                out.append("`: failed to parse header value");
                out
            },
            InvalidRequest::TooManyHeaders => "too many headers".to_owned(),
        }
    }
}

impl ProxyError {
    /// The message of the error.
    pub fn message(&self) -> (r: String)
        ensures
            r@ == proxy_error_message(*self),
    {
        match self {
            ProxyError::InvalidRequestSpec { reason } => {
                let mut out = "backend requester failed: ".to_owned();
                let detail = reason.message();
                out.append(detail.as_str());
                out
            },
            ProxyError::RequestIdInUse => "frontend request id is in use".to_owned(),
            ProxyError::EmissionFailed { detail } => {
                let mut out = "emit frontend task failed: ".to_owned();
                out.append(detail.as_str());
                out
            },
            ProxyError::DelegateTimeout { timeout_ms } => {
                let mut out = "frontend requester timeout (".to_owned();
                push_decimal(&mut out, *timeout_ms as u128);
                out.append("ms)");
                out
            },
            ProxyError::DelegateChannelClosed => "frontend requester channel closed".to_owned(),
            ProxyError::UnknownRequest => "no pending frontend request found".to_owned(),
        }
    }
}

/// A request that was handed to the user interface: the task to emit, the
/// channel on which its report will arrive, and how long to wait for it.
pub struct Delegation {
    pub task: FrontendRequestTask,
    pub receiver: Receiver<FrontendResponsePayload>,
    pub timeout_ms: u64,
}

/// How the wait for a report ended.
#[derive(Clone, Debug, PartialEq, Eq)]
pub enum DelegateOutcome {
    /// The report arrived.
    Reported(FrontendResponsePayload),
    /// The channel was closed without a report.
    ChannelClosed,
    /// The timeout ran out.
    TimedOut,
}

/// The number that follows `seq` in a sequence: one more, or 0 after the
/// largest.
pub open spec fn following(seq: u64) -> u64 {
    if seq == u64::MAX {
        0
    } else {
        (seq + 1) as u64
    }
}

/// Whether a delegation hands the described request to the user interface
/// under the identifier `id`: its task carries the identifier and the
/// description, and its timeout is that of the description or the default.
pub open spec fn delegates(d: Delegation, id: Seq<char>, payload: ProxyRequestPayload) -> bool {
    &&& d.task.request_id@ == id
    &&& d.task.method == payload.method
    &&& d.task.url == payload.url
    &&& d.task.headers == payload.headers
    &&& d.task.body == payload.body
    &&& d.task.timeout_ms == payload.timeout_ms
    &&& d.task.follow_redirects == payload.follow_redirects
    &&& d.timeout_ms == match payload.timeout_ms {
        Some(t) => t,
        None => DEFAULT_TIMEOUT_MS,
    }
}

/// Begins a frontend request: gives it the next identifier, makes it
/// pending, and builds the task for the user interface.
///
/// Fails with `RequestIdInUse`, leaving the registry as it was, exactly when
/// a request is pending under the new identifier. The sequence moves on
/// either way.
pub fn begin_delegated(
    registry: &mut PendingRegistry,
    sequence: &mut RequestSequence,
    now_ms: u128,
    payload: ProxyRequestPayload,
) -> (r: Result<Delegation, ProxyError>)
    ensures
        final(sequence).upcoming() == following(old(sequence).upcoming()),
        r is Ok == !finds(
            old(registry).pending(),
            request_id(now_ms as nat, old(sequence).upcoming() as nat),
        ),
        final(registry).pending() == registered(
            old(registry).pending(),
            request_id(now_ms as nat, old(sequence).upcoming() as nat),
        ),
        r is Err ==> final(registry).waiters() == old(registry).waiters(),
        r is Ok ==> exists|waiter: Sender<FrontendResponsePayload>|
            final(registry).waiters() == old(registry).waiters().insert(
                request_id(now_ms as nat, old(sequence).upcoming() as nat),
                waiter,
            ),
        match r {
            Ok(d) => delegates(
                d,
                request_id(now_ms as nat, old(sequence).upcoming() as nat),
                payload,
            ),
            Err(e) => e == ProxyError::RequestIdInUse,
        },
{
    let id = sequence.next_id(now_ms);
    match registry.register(id.clone()) {
        Err(_) => Err(ProxyError::RequestIdInUse),
        Ok(receiver) => {
            let timeout_ms = effective_timeout_ms(payload.timeout_ms);
            let task = delegated_task(id, payload);
            Ok(Delegation { task, receiver, timeout_ms })
        },
    }
}

/// Ends a frontend request whose task could not be emitted: the request is
/// pending no longer, and the error is `EmissionFailed`.
pub fn emission_failed(registry: &mut PendingRegistry, request_id: &str, detail: String) -> (r:
    ProxyError)
    ensures
        r == (ProxyError::EmissionFailed { detail }),
        final(registry).waiters() == old(registry).waiters().remove(request_id@),
        final(registry).pending() == removed(old(registry).pending(), request_id@),
{
    registry.cancel(request_id);
    ProxyError::EmissionFailed { detail }
}

/// Ends a frontend request after the wait for its report.
///
/// A report becomes the answer, field by field. A closed channel is
/// `DelegateChannelClosed`. A timeout is `DelegateTimeout`, and only then
/// the registry changes: the request is pending no longer, so that a late
/// report finds nothing.
pub fn finish_delegated(
    registry: &mut PendingRegistry,
    request_id: &str,
    timeout_ms: u64,
    outcome: DelegateOutcome,
) -> (r: Result<ProxyResponsePayload, ProxyError>)
    ensures
        match outcome {
            DelegateOutcome::Reported(result) => {
                &&& r matches Ok(answer)
                &&& answer.ok == result.ok
                &&& answer.status == result.status
                &&& answer.headers == result.headers
                &&& answer.body == result.body
                &&& answer.error == result.error
                &&& final(registry).waiters() == old(registry).waiters()
            },
            DelegateOutcome::ChannelClosed => {
                &&& r == Err::<ProxyResponsePayload, ProxyError>(ProxyError::DelegateChannelClosed)
                &&& final(registry).waiters() == old(registry).waiters()
            },
            DelegateOutcome::TimedOut => {
                &&& r == Err::<ProxyResponsePayload, ProxyError>(
                    ProxyError::DelegateTimeout { timeout_ms },
                )
                &&& final(registry).waiters() == old(registry).waiters().remove(request_id@)
                &&& final(registry).pending() == removed(old(registry).pending(), request_id@)
            },
        },
{
    match outcome {
        DelegateOutcome::Reported(result) => Ok(delegated_response(result)),
        DelegateOutcome::ChannelClosed => Err(ProxyError::DelegateChannelClosed),
        DelegateOutcome::TimedOut => {
            registry.cancel(request_id);
            Err(ProxyError::DelegateTimeout { timeout_ms })
        },
    }
}

/// Takes a report of the user interface and completes the request that it
/// names.
///
/// The only failure is `UnknownRequest`. It is the answer wherever no
/// request is pending under the identifier of the report: it never was, or
/// it was completed or timed out before. It is also the answer to a report
/// that finds its request pending after the wait for it was given up.
/// Afterwards no request is pending under that identifier.
pub fn submit_delegated_result(
    registry: &mut PendingRegistry,
    result: FrontendResponsePayload,
) -> (r: Result<(), ProxyError>)
    ensures
        r is Ok || r == Err::<(), ProxyError>(ProxyError::UnknownRequest),
        !finds(old(registry).pending(), result.request_id@) ==> r == Err::<(), ProxyError>(
            ProxyError::UnknownRequest,
        ),
        final(registry).waiters() == old(registry).waiters().remove(result.request_id@),
        final(registry).pending() == removed(old(registry).pending(), result.request_id@),
{
    match registry.resolve(result) {
        Ok(_) => Ok(()),
        Err(_) => Err(ProxyError::UnknownRequest),
    }
}

} // verus!
