use cas_relay::form_fields::HiddenFieldSet;
use cas_relay::login::{
    credential_form, default_headers, is_success_status, login_response, login_step,
    read_login_page, read_redirect, submit_headers, user_info_headers, LoginAction,
    LoginCredentials, LoginError, LoginEvent, LoginResponse, ACCEPT, ACCEPT_LANGUAGE,
    LOGIN_ORIGIN, LOGIN_URL, PORTAL_PAGE, USER_AGENT,
};
use cas_relay::ticket::TicketError;

fn credentials() -> LoginCredentials {
    LoginCredentials { username: "alice".to_string(), password: "s3cret".to_string() }
}

fn pair(a: &str, b: &str) -> (String, String) {
    (a.to_string(), b.to_string())
}

const PAGE: &str = r#"<html><form>
<input type="text" name="username">
<input type="hidden" name="execution" value="exec123">
<input type="hidden" name="failN" value="2">
</form></html>"#;

#[test]
fn sign_in_runs_from_page_to_token() {
    let event = LoginEvent::PageFetched {
        status: 200,
        final_url: LOGIN_URL.to_string(),
        body: PAGE.to_string(),
    };
    let form = match login_step(&credentials(), event) {
        LoginAction::Submit { form } => form,
        other => panic!("unexpected {:?}", other),
    };
    assert_eq!(
        form,
        vec![
            pair("username", "alice"),
            pair("password", "s3cret"),
            pair("captcha", ""),
            pair("mfaState", ""),
            pair("currentMenu", "1"),
            pair("failN", "2"),
            pair("execution", "exec123"),
            pair("_eventId", "submit"),
            pair("geolocation", ""),
            pair("fpVisitorId", ""),
        ]
    );
    let location = "https://portal/main.html?ticket=h.eyJpZFRva2VuIjoiVE9LIn0.s";
    let event = LoginEvent::Redirected { location: Some(location.to_string()) };
    let action = login_step(&credentials(), event);
    assert_eq!(action, LoginAction::Finish { outcome: Ok("TOK".to_string()) });
    let response = login_response(Ok("TOK".to_string()));
    assert_eq!(
        response,
        LoginResponse { success: true, token: Some("TOK".to_string()), message: "登录成功".to_string() }
    );
}

#[test]
fn answer_without_location_is_a_rejection() {
    assert_eq!(read_redirect(None), Err(LoginError::AuthenticationRejected));
    let action = login_step(&credentials(), LoginEvent::Redirected { location: None });
    assert_eq!(action, LoginAction::Finish { outcome: Err(LoginError::AuthenticationRejected) });
    let response = login_response(Err(LoginError::AuthenticationRejected));
    assert!(!response.success);
    assert_eq!(response.token, None);
    assert_eq!(response.message, "登录失败，用户名或密码错误");
}

#[test]
fn location_without_ticket_is_a_rejection() {
    assert_eq!(
        read_redirect(Some("https://cas/login?error=1")),
        Err(LoginError::AuthenticationRejected)
    );
    // the key must stand in the target as it came, before any decoding
    assert_eq!(
        read_redirect(Some("https://cas/login?ticket%3Dh.eyJpZFRva2VuIjoiVE9LIn0.s")),
        Err(LoginError::AuthenticationRejected)
    );
}

#[test]
fn unreadable_ticket_is_no_rejection() {
    assert_eq!(
        read_redirect(Some("https://portal/?ticket=abc")),
        Err(LoginError::Ticket(TicketError::InvalidTokenShape))
    );
    assert_eq!(
        read_redirect(Some("https://portal/?ticket=a.!.c")),
        Err(LoginError::Ticket(TicketError::PayloadDecodeError))
    );
    assert_eq!(
        read_redirect(Some("https://portal/?ticket=h.eyJzdWIiOiJ4In0.s")),
        Err(LoginError::Ticket(TicketError::ClaimMissing))
    );
}

#[test]
fn page_with_a_failure_status_ends_the_sign_in() {
    let r = read_login_page(503, "https://cas/down", PAGE);
    assert_eq!(
        r.unwrap_err(),
        LoginError::PageFetchFailed { status: 503, final_url: "https://cas/down".to_string() }
    );
    let r = read_login_page(199, "u", PAGE);
    assert!(matches!(r, Err(LoginError::PageFetchFailed { status: 199, .. })));
    let r = read_login_page(300, "u", PAGE);
    assert!(matches!(r, Err(LoginError::PageFetchFailed { status: 300, .. })));
    assert!(read_login_page(299, "u", PAGE).is_ok());
}

#[test]
fn page_without_execution_ends_the_sign_in() {
    let r = read_login_page(200, "https://cas/login", "<html>maintenance</html>");
    assert_eq!(
        r.unwrap_err(),
        LoginError::ParametersMissing { status: 200, final_url: "https://cas/login".to_string() }
    );
    let empty = r#"<input type="hidden" name="execution" value="">"#;
    assert!(matches!(read_login_page(200, "u", empty), Err(LoginError::ParametersMissing { .. })));
    let event = LoginEvent::PageFetched {
        status: 200,
        final_url: "u".to_string(),
        body: String::new(),
    };
    assert_eq!(
        login_step(&credentials(), event),
        LoginAction::Finish {
            outcome: Err(LoginError::ParametersMissing { status: 200, final_url: "u".to_string() })
        }
    );
}

#[test]
fn transport_failure_ends_the_sign_in_with_its_message() {
    let action = login_step(&credentials(), LoginEvent::Failed { message: "timed out".to_string() });
    assert_eq!(
        action,
        LoginAction::Finish { outcome: Err(LoginError::Transport { message: "timed out".to_string() }) }
    );
    let response = login_response(Err(LoginError::Transport { message: "timed out".to_string() }));
    assert_eq!(
        response,
        LoginResponse { success: false, token: None, message: "timed out".to_string() }
    );
}

#[test]
fn error_messages_are_exact() {
    let e = LoginError::PageFetchFailed { status: 404, final_url: "https://x/y".to_string() };
    assert_eq!(e.message(), "获取登录页面失败。HTTP 状态：404，最终 URL：https://x/y");
    let e = LoginError::ParametersMissing { status: 200, final_url: "https://x/y".to_string() };
    assert_eq!(
        e.message(),
        "无法获取登录参数（未找到 execution）。HTTP 状态：200，最终 URL：https://x/y"
    );
    assert_eq!(LoginError::AuthenticationRejected.message(), "登录失败，用户名或密码错误");
    assert_eq!(LoginError::Ticket(TicketError::MalformedTicket).message(), "无法提取 ticket");
    assert_eq!(LoginError::Ticket(TicketError::InvalidTokenShape).message(), "ticket 格式错误");
    assert_eq!(LoginError::Ticket(TicketError::PayloadDecodeError).message(), "解析 JWT 失败");
    assert_eq!(LoginError::Ticket(TicketError::ClaimMissing).message(), "无法获取 idToken");
}

#[test]
fn form_takes_the_hidden_fields() {
    let fields = HiddenFieldSet {
        execution: "e1".to_string(),
        current_menu: "3".to_string(),
        fail_n: "4".to_string(),
        geolocation: "geo".to_string(),
        fp_visitor_id: "fp".to_string(),
    };
    let form = credential_form(&credentials(), &fields);
    assert_eq!(form.len(), 10);
    assert_eq!(form[4], pair("currentMenu", "3"));
    assert_eq!(form[5], pair("failN", "4"));
    assert_eq!(form[6], pair("execution", "e1"));
    assert_eq!(form[8], pair("geolocation", "geo"));
    assert_eq!(form[9], pair("fpVisitorId", "fp"));
}

#[test]
fn success_statuses_are_200_to_299() {
    assert!(!is_success_status(0));
    assert!(!is_success_status(199));
    assert!(is_success_status(200));
    assert!(is_success_status(204));
    assert!(is_success_status(299));
    assert!(!is_success_status(300));
    assert!(!is_success_status(404));
}

#[test]
fn request_headers_are_those_of_a_browser() {
    assert_eq!(
        default_headers(),
        vec![
            pair("User-Agent", USER_AGENT),
            pair("Accept", ACCEPT),
            pair("Accept-Language", ACCEPT_LANGUAGE),
        ]
    );
    assert_eq!(
        submit_headers(),
        vec![
            pair("Content-Type", "application/x-www-form-urlencoded"),
            pair("User-Agent", USER_AGENT),
            pair("Accept", ACCEPT),
            pair("Accept-Language", ACCEPT_LANGUAGE),
            pair("Origin", LOGIN_ORIGIN),
            pair("Referer", LOGIN_URL),
        ]
    );
    assert_eq!(
        user_info_headers("TOK"),
        vec![
            pair("x-id-token", "TOK"),
            pair("x-device-info", "PC"),
            pair("x-terminal-info", "PC"),
            pair("Referer", PORTAL_PAGE),
        ]
    );
    assert!(LOGIN_URL.starts_with(LOGIN_ORIGIN));
}
