//! Preparing a request that this process sends itself.
//!
//! Before anything is sent, the method and the headers of the description
//! are turned into the values that the HTTP client takes. A description
//! whose method or headers cannot be turned so is refused here, before any
//! network traffic.

use vstd::prelude::*;
use vstd::utf8::encode_utf8;
use reqwest::header::{HeaderMap, HeaderName, HeaderValue};
use reqwest::Method;
use crate::proxy::{
    effective_timeout_ms, redirect_limit, InvalidRequest, ProxyError, ProxyRequestPayload,
    DEFAULT_TIMEOUT_MS, MAX_REDIRECTS,
};

verus! {

/// `reqwest::Method`: the method of a request.
#[verifier::external_type_specification]
#[verifier::external_body]
pub struct ExMethod(Method);

/// `reqwest::header::HeaderName`: the name of a header, in lower case.
#[verifier::external_type_specification]
#[verifier::external_body]
pub struct ExHeaderName(HeaderName);

/// `reqwest::header::HeaderValue`: the value of a header.
#[verifier::external_type_specification]
#[verifier::external_body]
pub struct ExHeaderValue(HeaderValue);

/// `reqwest::header::HeaderMap`: the headers of a request.
#[verifier::external_type_specification]
#[verifier::external_body]
#[verifier::reject_recursive_types(T)]
pub struct ExHeaderMap<T>(HeaderMap<T>);

/// The number of names up to which a header map surely takes one more: a
/// map that holds no more names than this never has to grow beyond its
/// largest size.
pub const MAX_HEADERS: usize = 6553;

/// A byte of an HTTP token: a letter, a digit, or one of
/// `!#$%&'*+-.^_`|~`.
pub open spec fn is_token_byte(b: u8) -> bool {
    ||| 0x30 <= b <= 0x39
    ||| 0x41 <= b <= 0x5A
    ||| 0x61 <= b <= 0x7A
    ||| b == 0x21
    ||| 0x23 <= b <= 0x27
    ||| b == 0x2A
    ||| b == 0x2B
    ||| b == 0x2D
    ||| b == 0x2E
    ||| b == 0x5E
    ||| b == 0x5F
    ||| b == 0x60
    ||| b == 0x7C
    ||| b == 0x7E
}

/// A text that is made of token bytes only.
pub open spec fn all_token_bytes(bytes: Seq<u8>) -> bool {
    forall|i: int| 0 <= i < bytes.len() ==> is_token_byte(#[trigger] bytes[i])
}

/// A method that can be sent: a token that is not empty.
pub open spec fn is_method(bytes: Seq<u8>) -> bool {
    bytes.len() > 0 && all_token_bytes(bytes)
}

/// A header name that can be sent: a token of 1 to 65535 bytes.
pub open spec fn is_header_name(bytes: Seq<u8>) -> bool {
    0 < bytes.len() <= 65535 && all_token_bytes(bytes)
}

/// A header value that can be sent: no byte is a control character other
/// than the tab.
pub open spec fn is_header_value(bytes: Seq<u8>) -> bool {
    forall|i: int|
        0 <= i < bytes.len() ==> ((#[trigger] bytes[i] >= 32 && bytes[i] != 127) || bytes[i] == 9)
}

/// A byte with an ASCII capital brought to lower case.
pub open spec fn lower_byte(b: u8) -> u8 {
    if 0x41 <= b <= 0x5A {
        (b + 32) as u8
    } else {
        b
    }
}

/// A text with its ASCII capitals brought to lower case.
pub open spec fn lowered(bytes: Seq<u8>) -> Seq<u8> {
    Seq::new(bytes.len(), |i: int| lower_byte(bytes[i]))
}

/// The text of a method, as `Method::as_str` gives it.
pub uninterp spec fn method_token(method: Method) -> Seq<u8>;

/// The text of a header name, as `HeaderName::as_str` gives it.
pub uninterp spec fn header_name_text(name: HeaderName) -> Seq<u8>;

/// The bytes of a header value, as `HeaderValue::as_bytes` gives them.
pub uninterp spec fn header_value_bytes(value: HeaderValue) -> Seq<u8>;

/// What a header map holds: for each name in it, the first of its values.
pub uninterp spec fn header_entries(map: HeaderMap) -> Map<Seq<u8>, Seq<u8>>;

/// The entries of a map that holds nothing.
pub open spec fn no_headers() -> Map<Seq<u8>, Seq<u8>> {
    Map::empty()
}

/// `reqwest::Method::from_bytes`: the method whose text is `bytes`, and
/// `None` exactly when `bytes` is empty or holds a byte that is no token
/// byte.
#[verifier::external_body]
fn parse_method(bytes: &[u8]) -> (r: Option<Method>)
    ensures
        r is Some == is_method(bytes@),
        r matches Some(method) ==> method_token(method) == bytes@,
{
    Method::from_bytes(bytes).ok()
}

/// `reqwest::header::HeaderName::from_bytes`: the name whose text is `bytes`
/// in lower case, and `None` exactly when `bytes` is empty, longer than
/// 65535 bytes, or holds a byte that is no token byte.
#[verifier::external_body]
fn parse_header_name(bytes: &[u8]) -> (r: Option<HeaderName>)
    ensures
        r is Some == is_header_name(bytes@),
        r matches Some(name) ==> header_name_text(name) == lowered(bytes@),
{
    HeaderName::from_bytes(bytes).ok()
}

/// `reqwest::header::HeaderValue::from_str`: the value whose bytes are those
/// of `text`, and `None` exactly when one of them is a control character
/// other than the tab.
#[verifier::external_body]
fn parse_header_value(text: &str) -> (r: Option<HeaderValue>)
    ensures
        r is Some == is_header_value(encode_utf8(text@)),
        r matches Some(value) ==> header_value_bytes(value) == encode_utf8(text@),
{
    HeaderValue::from_str(text).ok()
}

/// `reqwest::header::HeaderMap::new`: a map that holds nothing.
#[verifier::external_body]
fn new_header_map() -> (r: HeaderMap)
    ensures
        header_entries(r) == no_headers(),
{
    HeaderMap::new()
}

/// `reqwest::header::HeaderMap::try_insert`: tells whether the map took the
/// pair. Where it did, `value` is the only value of `name` afterwards, and
/// every other name has what it had. The map refuses only where it would
/// have to grow beyond its largest size; it never does while it holds at
/// most `MAX_HEADERS` names.
#[verifier::external_body]
fn insert_header(map: &mut HeaderMap, name: HeaderName, value: HeaderValue) -> (taken: bool)
    ensures
        taken ==> header_entries(*final(map)) == header_entries(*old(map)).insert(
            header_name_text(name),
            header_value_bytes(value),
        ),
        header_entries(*old(map)).dom().finite() && header_entries(*old(map)).dom().len()
            <= MAX_HEADERS ==> taken,
{
    map.try_insert(name, value).is_ok()
}

/// The name of a header as bytes.
pub open spec fn name_bytes(header: (String, String)) -> Seq<u8> {
    encode_utf8(header.0@)
}

/// The value of a header as bytes.
pub open spec fn value_bytes(header: (String, String)) -> Seq<u8> {
    encode_utf8(header.1@)
}

/// Whether a header can be sent: both its name and its value can.
pub open spec fn is_header(header: (String, String)) -> bool {
    is_header_name(name_bytes(header)) && is_header_value(value_bytes(header))
}

/// What is wrong with a header that cannot be sent: its name, or else its
/// value.
pub open spec fn header_fault(header: (String, String)) -> InvalidRequest {
    if !is_header_name(name_bytes(header)) {
        InvalidRequest::HeaderName { name: header.0 }
    } else {
        InvalidRequest::HeaderValue { name: header.0 }
    }
}

/// The position of the first header that cannot be sent, or the number of
/// headers where all can.
pub open spec fn first_fault(headers: Seq<(String, String)>, from: int) -> int
    decreases headers.len() - from,
{
    if from >= headers.len() {
        headers.len() as int
    } else if from >= 0 && !is_header(headers[from]) {
        from
    } else {
        first_fault(headers, from + 1)
    }
}

/// The map that the headers fill one after the other: each name in lower
/// case with the value of its last header.
pub open spec fn header_map_of(headers: Seq<(String, String)>) -> Map<Seq<u8>, Seq<u8>>
    decreases headers.len(),
{
    if headers.len() == 0 {
        Map::empty()
    } else {
        header_map_of(headers.drop_last()).insert(
            lowered(name_bytes(headers.last())),
            value_bytes(headers.last()),
        )
    }
}

/// The headers of a description, none where it names none.
pub open spec fn header_list(raw: Option<&Vec<(String, String)>>) -> Seq<(String, String)> {
    match raw {
        Some(headers) => headers@,
        None => Seq::empty(),
    }
}

/// The first fault among the headers, if there is one.
pub open spec fn headers_fault(headers: Seq<(String, String)>) -> Option<InvalidRequest> {
    if first_fault(headers, 0) < headers.len() {
        Some(header_fault(headers[first_fault(headers, 0)]))
    } else {
        None
    }
}

/// How many names the headers before the first fault fill in a map.
pub open spec fn names_to_fill(headers: Seq<(String, String)>) -> nat {
    header_map_of(headers.take(first_fault(headers, 0))).dom().len()
}

/// Whether `r` is the map of the headers, or the first fault among them:
/// the map is built exactly when every name and every value can be sent.
pub open spec fn built(r: Result<HeaderMap, ProxyError>, headers: Seq<(String, String)>) -> bool {
    match r {
        Ok(map) => headers_fault(headers) is None && header_entries(map) == header_map_of(
            headers,
        ),
        Err(e) => headers_fault(headers) matches Some(reason) && e == (
        ProxyError::InvalidRequestSpec { reason }),
    }
}

/// Whether `r` says that the header map refused to grow.
pub open spec fn refused(r: Result<HeaderMap, ProxyError>) -> bool {
    r matches Err(e) && e == (ProxyError::InvalidRequestSpec {
        reason: InvalidRequest::TooManyHeaders,
    })
}

/// What `first_fault` returns lies between `from` and the number of
/// headers.
pub proof fn lemma_first_fault(headers: Seq<(String, String)>, from: int)
    requires
        0 <= from <= headers.len(),
    ensures
        from <= first_fault(headers, from) <= headers.len(),
    decreases headers.len() - from,
{
    if from < headers.len() && is_header(headers[from]) {
        lemma_first_fault(headers, from + 1);
    }
}

/// The map of a list holds at most one name for each header, and at least
/// the names that the map of any beginning of the list holds.
pub proof fn lemma_names_grow(headers: Seq<(String, String)>, shorter: int, longer: int)
    requires
        0 <= shorter <= longer <= headers.len(),
    ensures
        header_map_of(headers.take(shorter)).dom().finite(),
        header_map_of(headers.take(longer)).dom().finite(),
        header_map_of(headers.take(shorter)).dom().len() <= header_map_of(
            headers.take(longer),
        ).dom().len() <= longer,
    decreases longer,
{
    if longer == 0 {
        assert(header_map_of(headers.take(0)).dom() =~= Set::<Seq<u8>>::empty());
    } else {
        let last = headers[longer - 1];
        assert(headers.take(longer).drop_last() =~= headers.take(longer - 1));
        assert(headers.take(longer).last() == last);
        assert(header_map_of(headers.take(longer)).dom() =~= header_map_of(
            headers.take(longer - 1),
        ).dom().insert(lowered(name_bytes(last))));
        if shorter < longer {
            lemma_names_grow(headers, shorter, longer - 1);
        } else {
            lemma_names_grow(headers, longer - 1, longer - 1);
        }
    }
}

/// Turns the headers of a description into a header map.
///
/// The map is built exactly when every name and every value can be sent,
/// and it then holds each name in lower case with the value of the last
/// header of that name. Otherwise the error is `InvalidRequestSpec`: it
/// names the first header that cannot be sent and says whether its name or
/// its value is at fault.
///
/// One more failure is left to the header map: `TooManyHeaders`, where the
/// map refused to grow. That cannot happen while the headers before the
/// first fault fill no more than `MAX_HEADERS` names.
pub fn reqwest_headers(raw: Option<&Vec<(String, String)>>) -> (r: Result<HeaderMap, ProxyError>)
    ensures
        built(r, header_list(raw)) || refused(r),
        refused(r) ==> names_to_fill(header_list(raw)) > MAX_HEADERS,
{
    let mut map = new_header_map();
    let headers = match raw {
        Some(headers) => headers,
        None => {
            return Ok(map);
        },
    };
    let mut i: usize = 0;
    while i < headers.len()
        invariant
            i <= headers@.len(),
            header_list(raw) == headers@,
            first_fault(headers@, 0) == first_fault(headers@, i as int),
            header_entries(map) == header_map_of(headers@.take(i as int)),
        decreases headers@.len() - i,
    {
        let name = match parse_header_name(headers[i].0.as_str().as_bytes()) {
            Some(name) => name,
            None => {
                return Err(
                    ProxyError::InvalidRequestSpec {
                        reason: InvalidRequest::HeaderName { name: headers[i].0.clone() },
                    },
                );
            },
        };
        let value = match parse_header_value(headers[i].1.as_str()) {
            Some(value) => value,
            None => {
                return Err(
                    ProxyError::InvalidRequestSpec {
                        reason: InvalidRequest::HeaderValue { name: headers[i].0.clone() },
                    },
                );
            },
        };
        if !insert_header(&mut map, name, value) {
            proof {
                lemma_first_fault(headers@, i + 1);
                lemma_names_grow(headers@, i as int, first_fault(headers@, 0));
            }
            return Err(
                ProxyError::InvalidRequestSpec { reason: InvalidRequest::TooManyHeaders },
            );
        }
        proof {
            assert(headers@.take(i + 1).drop_last() =~= headers@.take(i as int));
            assert(headers@.take(i + 1).last() == headers@[i as int]);
        }
        i += 1;
    }
    assert(headers@.take(i as int) =~= headers@);
    Ok(map)
}

/// A backend request that is ready to be sent.
pub struct BackendRequestPlan {
    pub method: Method,
    pub url: String,
    pub headers: HeaderMap,
    pub body: Option<String>,
    pub timeout_ms: u64,
    pub redirect_limit: usize,
}

/// What stands in the way of a backend request: its method, or else the
/// first fault of its headers.
pub open spec fn request_fault(payload: ProxyRequestPayload) -> Option<InvalidRequest> {
    if !is_method(encode_utf8(payload.method@)) {
        Some(InvalidRequest::Method { method: payload.method })
    } else {
        headers_fault(headers_of(payload))
    }
}

/// Whether a plan is the plan of a description: it holds the method and the
/// headers of the description as the client takes them, its address and
/// its body, its timeout or the default, and a limit of `MAX_REDIRECTS`
/// redirects if the description asks for redirects to be followed, of none
/// if it does not.
pub open spec fn plans(plan: BackendRequestPlan, payload: ProxyRequestPayload) -> bool {
    &&& method_token(plan.method) == encode_utf8(payload.method@)
    &&& header_entries(plan.headers) == header_map_of(headers_of(payload))
    &&& plan.url == payload.url
    &&& plan.body == payload.body
    &&& plan.timeout_ms == match payload.timeout_ms {
        Some(t) => t,
        None => DEFAULT_TIMEOUT_MS,
    }
    &&& plan.redirect_limit == if payload.follow_redirects == Some(true) {
        MAX_REDIRECTS
    } else {
        0
    }
}

/// The headers of a description as a list.
pub open spec fn headers_of(payload: ProxyRequestPayload) -> Seq<(String, String)> {
    match payload.headers {
        Some(headers) => headers@,
        None => Seq::empty(),
    }
}

/// Whether `r` is what planning a description comes to: its plan where
/// nothing stands in the way, and else `InvalidRequestSpec` with what does.
/// The one failure beside these is `TooManyHeaders`, where the method can be
/// sent and the header map refused to grow; it cannot happen while the
/// headers before the first fault fill no more than `MAX_HEADERS` names.
pub open spec fn planned(
    r: Result<BackendRequestPlan, ProxyError>,
    payload: ProxyRequestPayload,
) -> bool {
    match r {
        Ok(plan) => request_fault(payload) is None && plans(plan, payload),
        Err(e) => {
            ||| request_fault(payload) matches Some(reason) && e == (
            ProxyError::InvalidRequestSpec { reason })
            ||| {
                &&& e == (ProxyError::InvalidRequestSpec { reason: InvalidRequest::TooManyHeaders })
                &&& is_method(encode_utf8(payload.method@))
                &&& names_to_fill(headers_of(payload)) > MAX_HEADERS
            }
        },
    }
}

/// Prepares a backend request.
///
/// Fails with `InvalidRequestSpec` where the method is no token, where a
/// header cannot be sent, or where the header map refused to grow, and not
/// otherwise; `planned` says which of them it is. The plan holds the method
/// and the headers as the client takes them, the address and the body of
/// the description, its timeout or the default of 30000 milliseconds, and a
/// limit of 10 redirects if the description asks for redirects to be
/// followed, of none if it does not.
pub fn plan_backend_request(payload: &ProxyRequestPayload) -> (r: Result<
    BackendRequestPlan,
    ProxyError,
>)
    ensures
        planned(r, *payload),
{
    let timeout_ms = effective_timeout_ms(payload.timeout_ms);
    let method = match parse_method(payload.method.as_str().as_bytes()) {
        Some(method) => method,
        None => {
            return Err(
                ProxyError::InvalidRequestSpec {
                    reason: InvalidRequest::Method { method: payload.method.clone() },
                },
            );
        },
    };
    let headers = match reqwest_headers(payload.headers.as_ref()) {
        Ok(headers) => headers,
        Err(e) => {
            return Err(e);
        },
    };
    let body = match &payload.body {
        Some(body) => Some(body.clone()),
        None => None,
    };
    Ok(
        BackendRequestPlan {
            method,
            url: payload.url.clone(),
            headers,
            body,
            timeout_ms,
            redirect_limit: redirect_limit(payload.follow_redirects),
        },
    )
}

} // verus!
