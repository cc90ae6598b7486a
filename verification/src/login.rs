//! Signing in through the login form of the portal.
//!
//! A sign-in is one pass through four steps: fetch the login page, read its
//! hidden fields, post the credentials with those fields, and read the ticket
//! out of the redirect that answers the post. This module decides what each
//! step makes of what the portal returned; fetching and posting are the
//! caller's part.

use vstd::prelude::*;
use crate::decimal::{decimal, push_decimal};
use crate::form_fields::{extract_hidden_fields, hidden_fields, HiddenFieldSet, HiddenFields};
use crate::text::{chars_of, find, index_of};
use crate::ticket::{extract_id_token_from_ticket, id_token_of, TicketError};

verus! {

/// The address of the login form. The page is fetched from it and the
/// credentials are posted to it.
pub const LOGIN_URL: &'static str =
    "https://cas.ksu.edu.cn/cas/login?service=https%3A%2F%2Fportal.ksu.edu.cn%2F%3Fpath%3Dhttps%253A%252F%252Fportal.ksu.edu.cn%252Fmain.html%2523%252F";

/// The origin of the login form, sent as `Origin` with the credentials.
pub const LOGIN_ORIGIN: &'static str = "https://cas.ksu.edu.cn";

/// The address that answers with the profile of the signed-in user.
pub const USER_INFO_URL: &'static str = "https://authx-service.ksu.edu.cn/personal/api/v1/personal/me/user";

/// The page that profile requests name as their referer.
pub const PORTAL_PAGE: &'static str = "https://portal.ksu.edu.cn/main.html";

/// The `User-Agent` of every request to the portal.
pub const USER_AGENT: &'static str = "Mozilla/5.0 (Windows NT 10.0; Win64; x64) AppleWebKit/537.36";

/// The `Accept` of every request to the portal.
pub const ACCEPT: &'static str = "text/html,application/xhtml+xml,application/xml;q=0.9,*/*;q=0.8";

/// The `Accept-Language` of every request to the portal.
pub const ACCEPT_LANGUAGE: &'static str = "zh-CN,zh;q=0.9,en;q=0.8";

/// The key under which a remembered token is stored.
pub const STORE_KEY: &'static str = "auth";

/// The name and the password of a user.
#[derive(Clone, Debug, PartialEq, Eq)]
pub struct LoginCredentials {
    pub username: String,
    pub password: String,
}

/// The answer to a sign-in.
#[derive(Clone, Debug, PartialEq, Eq)]
pub struct LoginResponse {
    pub success: bool,
    pub token: Option<String>,
    pub message: String,
}

/// Why a sign-in failed.
#[derive(Clone, Debug, PartialEq, Eq)]
pub enum LoginError {
    /// The login page came with a status outside 200 to 299.
    PageFetchFailed { status: u16, final_url: String },
    /// The login page holds no hidden input `execution` with a value.
    ParametersMissing { status: u16, final_url: String },
    /// The answer to the credentials is no redirect to a ticket: the name or
    /// the password is wrong.
    AuthenticationRejected,
    /// The redirect holds a ticket that could not be read.
    Ticket(TicketError),
    /// A request did not get through.
    Transport { message: String },
}

/// Whether a status is one of success, 200 to 299.
pub open spec fn is_success(status: u16) -> bool {
    200 <= status < 300
}

/// Tells whether a status is one of success.
pub fn is_success_status(status: u16) -> (r: bool)
    ensures
        r == is_success(status),
{
    200 <= status && status < 300
}

/// The message of a ticket error.
pub open spec fn ticket_message(e: TicketError) -> Seq<char> {
    match e {
        TicketError::MalformedTicket => "无法提取 ticket"@,
        TicketError::InvalidTokenShape => "ticket 格式错误"@,
        TicketError::PayloadDecodeError => "解析 JWT 失败"@,
        TicketError::ClaimMissing => "无法获取 idToken"@,
    }
}

/// The message of an error, for the user.
pub open spec fn error_message(e: LoginError) -> Seq<char> {
    match e {
        LoginError::PageFetchFailed { status, final_url } => "获取登录页面失败。HTTP 状态："@ + decimal(
            status as nat,
        ) + "，最终 URL："@ + final_url@,
        LoginError::ParametersMissing { status, final_url } =>
            "无法获取登录参数（未找到 execution）。HTTP 状态："@ + decimal(status as nat) + "，最终 URL："@
                + final_url@,
        LoginError::AuthenticationRejected => "登录失败，用户名或密码错误"@,
        LoginError::Ticket(t) => ticket_message(t),
        LoginError::Transport { message } => message@,
    }
}

impl LoginError {
    /// The message of the error, for the user. Only `AuthenticationRejected`
    /// speaks of a wrong name or password.
    pub fn message(&self) -> (r: String)
        ensures
            r@ == error_message(*self),
    {
        match self {
            LoginError::PageFetchFailed { status, final_url } => {
                let mut out = "获取登录页面失败。HTTP 状态：".to_owned();
                push_decimal(&mut out, *status as u128);
                out.append("，最终 URL：");
                out.append(final_url.as_str());
                out
            },
            LoginError::ParametersMissing { status, final_url } => {
                let mut out = "无法获取登录参数（未找到 execution）。HTTP 状态：".to_owned();
                push_decimal(&mut out, *status as u128);
                out.append("，最终 URL：");
                out.append(final_url.as_str());
                out
            },
            LoginError::AuthenticationRejected => "登录失败，用户名或密码错误".to_owned(),
            LoginError::Ticket(t) => match t {
                TicketError::MalformedTicket => "无法提取 ticket".to_owned(),
                TicketError::InvalidTokenShape => "ticket 格式错误".to_owned(),
                TicketError::PayloadDecodeError => "解析 JWT 失败".to_owned(),
                TicketError::ClaimMissing => "无法获取 idToken".to_owned(),
            },
            LoginError::Transport { message } => message.clone(),
        }
    }
}

/// What the login page settles: the hidden fields, or why the sign-in ends.
pub open spec fn page_outcome(status: u16, body: Seq<char>) -> Option<HiddenFields> {
    if is_success(status) && hidden_fields(body).execution.len() > 0 {
        Some(hidden_fields(body))
    } else {
        None
    }
}

/// Reads the hidden fields of the login page.
///
/// Fails with `PageFetchFailed` exactly when the status is outside 200 to
/// 299, and with `ParametersMissing` exactly when the status is inside and
/// the page gives `execution` no value. Both errors carry the status and the
/// address that the page came from.
pub fn read_login_page(status: u16, final_url: &str, body: &str) -> (r: Result<
    HiddenFieldSet,
    LoginError,
>)
    ensures
        match r {
            Ok(fields) => page_outcome(status, body@) == Some(fields@),
            Err(LoginError::PageFetchFailed { status: s, final_url: u }) => !is_success(status) && s
                == status && u@ == final_url@,
            Err(LoginError::ParametersMissing { status: s, final_url: u }) => is_success(status)
                && hidden_fields(body@).execution.len() == 0 && s == status && u@ == final_url@,
            Err(_) => false,
        },
{
    if !is_success_status(status) {
        return Err(LoginError::PageFetchFailed { status, final_url: final_url.to_owned() });
    }
    let fields = extract_hidden_fields(body);
    if fields.execution.as_str().is_empty() {
        return Err(LoginError::ParametersMissing { status, final_url: final_url.to_owned() });
    }
    Ok(fields)
}

/// A list of pairs of strings as pairs of texts.
pub open spec fn pairs_view(pairs: Seq<(String, String)>) -> Seq<(Seq<char>, Seq<char>)> {
    Seq::new(pairs.len(), |i: int| (pairs[i].0@, pairs[i].1@))
}

/// The form that posts the credentials: ten fields in this order.
pub open spec fn login_form(username: Seq<char>, password: Seq<char>, fields: HiddenFields) -> Seq<
    (Seq<char>, Seq<char>),
> {
    seq![
        ("username"@, username),
        ("password"@, password),
        ("captcha"@, ""@),
        ("mfaState"@, ""@),
        ("currentMenu"@, fields.current_menu),
        ("failN"@, fields.fail_n),
        ("execution"@, fields.execution),
        ("_eventId"@, "submit"@),
        ("geolocation"@, fields.geolocation),
        ("fpVisitorId"@, fields.fp_visitor_id),
    ]
}

/// One field of a form.
fn pair(name: &str, value: &str) -> (r: (String, String))
    ensures
        r.0@ == name@,
        r.1@ == value@,
{
    (name.to_owned(), value.to_owned())
}

/// Fills in the form that posts the credentials.
pub fn credential_form(credentials: &LoginCredentials, fields: &HiddenFieldSet) -> (r: Vec<
    (String, String),
>)
    ensures
        pairs_view(r@) == login_form(credentials.username@, credentials.password@, fields@),
{
    let mut form: Vec<(String, String)> = Vec::new();
    form.push(pair("username", credentials.username.as_str()));
    form.push(pair("password", credentials.password.as_str()));
    form.push(pair("captcha", ""));
    form.push(pair("mfaState", ""));
    form.push(pair("currentMenu", fields.current_menu.as_str()));
    form.push(pair("failN", fields.fail_n.as_str()));
    form.push(pair("execution", fields.execution.as_str()));
    form.push(pair("_eventId", "submit"));
    form.push(pair("geolocation", fields.geolocation.as_str()));
    form.push(pair("fpVisitorId", fields.fp_visitor_id.as_str()));
    assert(pairs_view(form@) =~= login_form(
        credentials.username@,
        credentials.password@,
        fields@,
    ));
    form
}

/// The headers of the request that posts the credentials, in this order.
pub open spec fn submit_header_list() -> Seq<(Seq<char>, Seq<char>)> {
    seq![
        ("Content-Type"@, "application/x-www-form-urlencoded"@),
        ("User-Agent"@, USER_AGENT@),
        ("Accept"@, ACCEPT@),
        ("Accept-Language"@, ACCEPT_LANGUAGE@),
        ("Origin"@, LOGIN_ORIGIN@),
        ("Referer"@, LOGIN_URL@),
    ]
}

/// The headers that every request to the portal carries, as a browser would
/// send them.
pub fn default_headers() -> (r: Vec<(String, String)>)
    ensures
        pairs_view(r@) == seq![
            ("User-Agent"@, USER_AGENT@),
            ("Accept"@, ACCEPT@),
            ("Accept-Language"@, ACCEPT_LANGUAGE@),
        ],
{
    let mut headers: Vec<(String, String)> = Vec::new();
    headers.push(pair("User-Agent", USER_AGENT));
    headers.push(pair("Accept", ACCEPT));
    headers.push(pair("Accept-Language", ACCEPT_LANGUAGE));
    assert(pairs_view(headers@) =~= seq![
        ("User-Agent"@, USER_AGENT@),
        ("Accept"@, ACCEPT@),
        ("Accept-Language"@, ACCEPT_LANGUAGE@),
    ]);
    headers
}

/// The headers of the request that posts the credentials.
pub fn submit_headers() -> (r: Vec<(String, String)>)
    ensures
        pairs_view(r@) == submit_header_list(),
{
    let mut headers: Vec<(String, String)> = Vec::new();
    headers.push(pair("Content-Type", "application/x-www-form-urlencoded"));
    headers.push(pair("User-Agent", USER_AGENT));
    headers.push(pair("Accept", ACCEPT));
    headers.push(pair("Accept-Language", ACCEPT_LANGUAGE));
    headers.push(pair("Origin", LOGIN_ORIGIN));
    headers.push(pair("Referer", LOGIN_URL));
    assert(pairs_view(headers@) =~= submit_header_list());
    headers
}

/// The headers of the request for the profile of the user with `token`.
pub fn user_info_headers(token: &str) -> (r: Vec<(String, String)>)
    ensures
        pairs_view(r@) == seq![
            ("x-id-token"@, token@),
            ("x-device-info"@, "PC"@),
            ("x-terminal-info"@, "PC"@),
            ("Referer"@, PORTAL_PAGE@),
        ],
{
    let mut headers: Vec<(String, String)> = Vec::new();
    headers.push(pair("x-id-token", token));
    headers.push(pair("x-device-info", "PC"));
    headers.push(pair("x-terminal-info", "PC"));
    headers.push(pair("Referer", PORTAL_PAGE));
    assert(pairs_view(headers@) =~= seq![
        ("x-id-token"@, token@),
        ("x-device-info"@, "PC"@),
        ("x-terminal-info"@, "PC"@),
        ("Referer"@, PORTAL_PAGE@),
    ]);
    headers
}

/// What the answer to the credentials amounts to: the identity claim of the
/// ticket in its `Location`, or why the sign-in ends. An answer without a
/// `Location`, or with one that holds no `ticket=`, means that the name or
/// the password is wrong.
pub open spec fn redirect_outcome(location: Option<Seq<char>>) -> Result<Seq<char>, LoginError> {
    match location {
        None => Err(LoginError::AuthenticationRejected),
        Some(target) => if index_of(target, "ticket="@, 0) is None {
            Err(LoginError::AuthenticationRejected)
        } else {
            match id_token_of(target) {
                Ok(token) => Ok(token),
                Err(e) => Err(LoginError::Ticket(e)),
            }
        },
    }
}

/// The `Location` of an answer as a text.
pub open spec fn location_text(location: Option<&str>) -> Option<Seq<char>> {
    match location {
        Some(target) => Some(target@),
        None => None,
    }
}

/// The outcome of a sign-in with its token as a text. No error of a
/// redirect carries a string, so errors compare as they are.
pub open spec fn outcome_text(r: Result<String, LoginError>) -> Result<Seq<char>, LoginError> {
    match r {
        Ok(token) => Ok(token@),
        Err(e) => Err(e),
    }
}

/// Reads the identity claim out of the answer to the credentials.
///
/// Fails with `AuthenticationRejected` exactly when the answer has no
/// `Location` or its `Location` holds no `ticket=`; a ticket that cannot be
/// read fails with the error of the ticket instead.
pub fn read_redirect(location: Option<&str>) -> (r: Result<String, LoginError>)
    ensures
        outcome_text(r) == redirect_outcome(location_text(location)),
{
    match location {
        None => Err(LoginError::AuthenticationRejected),
        Some(target) => {
            let chars = chars_of(target);
            let key = chars_of("ticket=");
            match find(chars.as_slice(), key.as_slice(), 0) {
                None => Err(LoginError::AuthenticationRejected),
                Some(_) => match extract_id_token_from_ticket(target) {
                    Ok(token) => Ok(token),
                    Err(e) => Err(LoginError::Ticket(e)),
                },
            }
        },
    }
}

/// The answer to a sign-in with the given outcome: the token and a word of
/// success, or the message of the error.
pub fn login_response(outcome: Result<String, LoginError>) -> (r: LoginResponse)
    ensures
        match outcome {
            Ok(token) => r.success && r.token == Some(token) && r.message@ == "登录成功"@,
            Err(e) => !r.success && r.token is None && r.message@ == error_message(e),
        },
{
    match outcome {
        Ok(token) => LoginResponse {
            success: true,
            token: Some(token),
            message: "登录成功".to_owned(),
        },
        Err(e) => LoginResponse { success: false, token: None, message: e.message() },
    }
}

/// What the portal or the network handed back to a step of the sign-in.
#[derive(Clone, Debug, PartialEq, Eq)]
pub enum LoginEvent {
    /// The login page arrived.
    PageFetched { status: u16, final_url: String, body: String },
    /// The credentials were answered; `location` is the `Location` of the
    /// answer, if it has one that is text.
    Redirected { location: Option<String> },
    /// A request did not get through.
    Failed { message: String },
}

/// What the sign-in does next.
#[derive(Debug, PartialEq, Eq)]
pub enum LoginAction {
    /// Post this form to the login address without following redirects.
    Submit { form: Vec<(String, String)> },
    /// The sign-in is over.
    Finish { outcome: Result<String, LoginError> },
}

/// Decides the next step of a sign-in from what the last one brought.
///
/// A login page that can be used leads to the post of the credentials with
/// its hidden fields; every other event ends the sign-in, a redirect with
/// what `read_redirect` makes of it.
pub fn login_step(credentials: &LoginCredentials, event: LoginEvent) -> (r: LoginAction)
    ensures
        match event {
            LoginEvent::PageFetched { status, final_url, body } => match r {
                LoginAction::Submit { form } => page_outcome(status, body@) is Some && pairs_view(
                    form@,
                ) == login_form(
                    credentials.username@,
                    credentials.password@,
                    page_outcome(status, body@)->0,
                ),
                LoginAction::Finish { outcome } => page_outcome(status, body@) is None && (
                match outcome {
                    Err(LoginError::PageFetchFailed { status: s, final_url: u }) => !is_success(
                        status,
                    ) && s == status && u@ == final_url@,
                    Err(LoginError::ParametersMissing { status: s, final_url: u }) => is_success(
                        status,
                    ) && s == status && u@ == final_url@,
                    _ => false,
                }),
            },
            LoginEvent::Redirected { location } => r matches LoginAction::Finish { outcome }
                && outcome_text(outcome) == redirect_outcome(
                match location {
                    Some(target) => Some(target@),
                    None => None,
                },
            ),
            LoginEvent::Failed { message } => r == (LoginAction::Finish {
                outcome: Err(LoginError::Transport { message }),
            }),
        },
{
    match event {
        LoginEvent::PageFetched { status, final_url, body } => {
            match read_login_page(status, final_url.as_str(), body.as_str()) {
                Ok(fields) => LoginAction::Submit { form: credential_form(credentials, &fields) },
                Err(e) => LoginAction::Finish { outcome: Err(e) },
            }
        },
        LoginEvent::Redirected { location } => {
            let outcome = match &location {
                Some(target) => read_redirect(Some(target.as_str())),
                None => read_redirect(None),
            };
            LoginAction::Finish { outcome }
        },
        LoginEvent::Failed { message } => LoginAction::Finish {
            outcome: Err(LoginError::Transport { message }),
        },
    }
}

} // verus!
