use cas_relay::backend::{plan_backend_request, reqwest_headers, MAX_HEADERS};
use cas_relay::proxy::{InvalidRequest, ProxyError, ProxyRequestPayload, RequestMode};

fn pair(a: &str, b: &str) -> (String, String) {
    (a.to_string(), b.to_string())
}

fn request(method: &str, headers: Option<Vec<(String, String)>>) -> ProxyRequestPayload {
    ProxyRequestPayload {
        request_mode: RequestMode::Backend,
        method: method.to_string(),
        url: "http://127.0.0.1:9/unreachable".to_string(),
        headers,
        body: None,
        timeout_ms: None,
        follow_redirects: None,
    }
}

fn invalid(reason: InvalidRequest) -> ProxyError {
    ProxyError::InvalidRequestSpec { reason }
}

#[test]
fn get_request_is_planned_with_defaults() {
    let plan = plan_backend_request(&request("GET", None)).ok().unwrap();
    assert_eq!(plan.method, reqwest::Method::GET);
    assert_eq!(plan.method.as_str(), "GET");
    assert_eq!(plan.url, "http://127.0.0.1:9/unreachable");
    assert!(plan.headers.is_empty());
    assert_eq!(plan.body, None);
    assert_eq!(plan.timeout_ms, 30_000);
    assert_eq!(plan.redirect_limit, 0);
}

#[test]
fn plan_takes_what_the_request_says() {
    let mut r = request("PATCH", Some(vec![pair("Content-Type", "text/plain")]));
    r.body = Some("body".to_string());
    r.timeout_ms = Some(1234);
    r.follow_redirects = Some(true);
    let plan = plan_backend_request(&r).ok().unwrap();
    assert_eq!(plan.method.as_str(), "PATCH");
    assert_eq!(plan.body, Some("body".to_string()));
    assert_eq!(plan.timeout_ms, 1234);
    assert_eq!(plan.redirect_limit, 10);
    assert_eq!(plan.headers.get("content-type").unwrap().as_bytes(), b"text/plain");
    r.follow_redirects = Some(false);
    assert_eq!(plan_backend_request(&r).ok().unwrap().redirect_limit, 0);
}

#[test]
fn extension_methods_are_taken_as_they_are() {
    for method in ["PROPFIND", "get", "M-SEARCH", "A_VERY_LONG_METHOD_NAME_OF_MANY_BYTES", "!#$%&'*+-.^_`|~"] {
        let plan = plan_backend_request(&request(method, None)).ok().unwrap();
        assert_eq!(plan.method.as_str(), method);
    }
}

#[test]
fn method_that_is_no_token_is_refused() {
    for method in ["", "G T", "GET\n", "GÉT", "GET/1", "(GET)", "a\"b", "a:b", "a@b", "a[b", "a{b", "a,b", "a;b", "a=b", "a<b", "a\\b", "a?b", "\u{7f}"] {
        let r = plan_backend_request(&request(method, None));
        assert_eq!(r.err(), Some(invalid(InvalidRequest::Method { method: method.to_string() })));
    }
}

#[test]
fn method_is_checked_before_the_headers() {
    let r = plan_backend_request(&request("G T", Some(vec![pair("bad name", "v")])));
    assert_eq!(r.err(), Some(invalid(InvalidRequest::Method { method: "G T".to_string() })));
}

#[test]
fn header_names_are_kept_in_lower_case() {
    let raw = vec![pair("X-Custom-Header", "Value One"), pair("ACCEPT", "*/*")];
    let map = reqwest_headers(Some(&raw)).ok().unwrap();
    assert_eq!(map.len(), 2);
    let names: Vec<&str> = map.keys().map(|k| k.as_str()).collect();
    assert!(names.contains(&"x-custom-header"));
    assert!(names.contains(&"accept"));
    assert_eq!(map.get("x-custom-header").unwrap().as_bytes(), b"Value One");
    assert_eq!(map.get("accept").unwrap().as_bytes(), b"*/*");
}

#[test]
fn later_header_of_the_same_name_wins() {
    let raw = vec![pair("X-A", "1"), pair("x-b", "2"), pair("x-a", "3")];
    let map = reqwest_headers(Some(&raw)).ok().unwrap();
    assert_eq!(map.len(), 2);
    assert_eq!(map.get_all("x-a").iter().count(), 1);
    assert_eq!(map.get("x-a").unwrap().as_bytes(), b"3");
    assert_eq!(map.get("x-b").unwrap().as_bytes(), b"2");
}

#[test]
fn no_headers_make_an_empty_map() {
    assert!(reqwest_headers(None).ok().unwrap().is_empty());
    assert!(reqwest_headers(Some(&vec![])).ok().unwrap().is_empty());
}

#[test]
fn header_values_may_hold_tabs_and_bytes_above_ascii() {
    let raw = vec![pair("a", "x\ty"), pair("b", "héllo"), pair("c", ""), pair("d", " ~")];
    let map = reqwest_headers(Some(&raw)).ok().unwrap();
    assert_eq!(map.get("a").unwrap().as_bytes(), b"x\ty");
    assert_eq!(map.get("b").unwrap().as_bytes(), "héllo".as_bytes());
    assert_eq!(map.get("c").unwrap().as_bytes(), b"");
}

#[test]
fn first_header_that_cannot_be_sent_is_named() {
    let raw = vec![pair("ok", "fine"), pair("bad name", "v"), pair("x", "a\nb")];
    assert_eq!(
        reqwest_headers(Some(&raw)).err(),
        Some(invalid(InvalidRequest::HeaderName { name: "bad name".to_string() }))
    );
    let raw = vec![pair("ok", "fine"), pair("x", "a\nb"), pair("bad name", "v")];
    assert_eq!(
        reqwest_headers(Some(&raw)).err(),
        Some(invalid(InvalidRequest::HeaderValue { name: "x".to_string() }))
    );
    let raw = vec![pair("bad name", "a\nb")];
    assert_eq!(
        reqwest_headers(Some(&raw)).err(),
        Some(invalid(InvalidRequest::HeaderName { name: "bad name".to_string() }))
    );
}

#[test]
fn header_names_must_be_tokens_of_a_bounded_length() {
    for name in ["", "a b", "a:b", "é", "a\0b", "a(b", "a/b"] {
        let raw = vec![pair(name, "v")];
        assert_eq!(
            reqwest_headers(Some(&raw)).err(),
            Some(invalid(InvalidRequest::HeaderName { name: name.to_string() }))
        );
    }
    let marks = "!#$%&'*+-.^_`|~09azAZ";
    let map = reqwest_headers(Some(&vec![pair(marks, "v")])).ok().unwrap();
    assert_eq!(map.keys().next().unwrap().as_str(), "!#$%&'*+-.^_`|~09azaz");
    let long = "a".repeat(65535);
    assert!(reqwest_headers(Some(&vec![pair(&long, "v")])).is_ok());
    let too_long = "a".repeat(65536);
    assert!(reqwest_headers(Some(&vec![pair(&too_long, "v")])).is_err());
    let mixed = "A".repeat(70);
    let map = reqwest_headers(Some(&vec![pair(&mixed, "v")])).ok().unwrap();
    assert_eq!(map.keys().next().unwrap().as_str(), "a".repeat(70));
}

#[test]
fn header_values_must_not_hold_control_characters() {
    for value in ["a\nb", "a\rb", "\0", "\u{7f}", "\u{1b}[0m"] {
        let raw = vec![pair("x", value)];
        assert_eq!(
            reqwest_headers(Some(&raw)).err(),
            Some(invalid(InvalidRequest::HeaderValue { name: "x".to_string() }))
        );
    }
}

#[test]
fn as_many_names_as_the_sure_number_are_taken() {
    let raw: Vec<(String, String)> =
        (0..MAX_HEADERS + 1).map(|i| (format!("h{}", i), i.to_string())).collect();
    let map = reqwest_headers(Some(&raw)).ok().unwrap();
    assert_eq!(map.len(), MAX_HEADERS + 1);
    assert_eq!(map.get("h6553").unwrap().as_bytes(), b"6553");
}

#[test]
fn long_lists_of_ordinary_headers_are_taken() {
    let raw: Vec<(String, String)> =
        (0..7000).map(|i| (format!("x-header-{}", i), i.to_string())).collect();
    let map = reqwest_headers(Some(&raw)).ok().unwrap();
    assert_eq!(map.len(), 7000);
    assert_eq!(map.get("x-header-0").unwrap().as_bytes(), b"0");
    assert_eq!(map.get("x-header-6999").unwrap().as_bytes(), b"6999");
}

#[test]
fn names_count_and_not_headers() {
    let raw: Vec<(String, String)> = (0..7000)
        .map(|i| (if i % 2 == 0 { "X-Even" } else { "x-odd" }.to_string(), i.to_string()))
        .collect();
    let map = reqwest_headers(Some(&raw)).ok().unwrap();
    assert_eq!(map.len(), 2);
    assert_eq!(map.get("x-even").unwrap().as_bytes(), b"6998");
    assert_eq!(map.get("x-odd").unwrap().as_bytes(), b"6999");
    // a list of any length fails on its first header that cannot be sent
    let mut raw = raw;
    raw.push(pair("bad name", "v"));
    assert_eq!(
        reqwest_headers(Some(&raw)).err(),
        Some(invalid(InvalidRequest::HeaderName { name: "bad name".to_string() }))
    );
}

#[test]
fn map_that_cannot_grow_refuses() {
    let raw: Vec<(String, String)> =
        (0..40_000).map(|i| (format!("h{}", i), String::new())).collect();
    assert_eq!(reqwest_headers(Some(&raw)).err(), Some(invalid(InvalidRequest::TooManyHeaders)));
    let mut request = request("GET", Some(raw));
    assert_eq!(
        plan_backend_request(&request).err(),
        Some(invalid(InvalidRequest::TooManyHeaders))
    );
    // the method is judged first
    request.method = String::new();
    assert_eq!(
        plan_backend_request(&request).err(),
        Some(invalid(InvalidRequest::Method { method: String::new() }))
    );
}
