//! What the service answers to a login and to a check of a token, decided
//! from plain values. Reading the request and sending the answer is the
//! caller's part.

use crate::auth::{validated, AuthService};
use crate::clock::read_clock;
use crate::response::{STATUS_OK, STATUS_UNAUTHORIZED};
use crate::token::{bearer_token, extract_bearer_token};
use vstd::prelude::*;
use vstd::string::*;

verus! {

/// What a login asks with.
#[derive(Debug)]
pub struct LoginRequest {
    pub email: String,
    pub password: String,
}

/// The answer to a login or to a check.
#[derive(Debug)]
pub struct LoginResponse {
    pub success: bool,
    pub message: String,
    pub access_token: Option<String>,
    pub refresh_token: Option<String>,
}

/// An answer as the contracts see it.
pub struct LoginResponseView {
    pub success: bool,
    pub message: Seq<char>,
    pub access_token: Option<Seq<char>>,
    pub refresh_token: Option<Seq<char>>,
}

impl View for LoginResponse {
    type V = LoginResponseView;

    open spec fn view(&self) -> LoginResponseView {
        LoginResponseView {
            success: self.success,
            message: self.message@,
            access_token: match self.access_token {
                Some(token) => Some(token@),
                None => None,
            },
            refresh_token: match self.refresh_token {
                Some(token) => Some(token@),
                None => None,
            },
        }
    }
}

/// The authorization header of a request, as far as it can be read.
#[derive(Debug)]
pub enum AuthorizationHeader {
    /// The request has no such header.
    Absent,
    /// It has one, and the value is not text.
    NotText,
    /// It has one with this value.
    Text(String),
}

/// An answer without tokens.
pub open spec fn plain_answer(success: bool, message: Seq<char>) -> LoginResponseView {
    LoginResponseView { success, message, access_token: None, refresh_token: None }
}

/// An answer without tokens.
fn answer(success: bool, message: &str) -> (response: LoginResponse)
    ensures
        response@ == plain_answer(success, message@),
{
    LoginResponse { success, message: message.to_owned(), access_token: None, refresh_token: None }
}

/// The answer to a login, given what the check of the password came to:
/// the token that it earned, or the reason why it earned none.
pub open spec fn login_answer(authenticated: Result<Seq<char>, Seq<char>>) -> LoginResponseView {
    match authenticated {
        Ok(token) => LoginResponseView {
            success: true,
            message: "Login successful"@,
            access_token: Some(token),
            refresh_token: None,
        },
        Err(reason) => plain_answer(false, "Authentication failed: "@ + reason),
    }
}

/// Answers a login.
pub fn login(authenticated: Result<String, String>) -> (response: LoginResponse)
    ensures
        response@ == login_answer(
            match authenticated {
                Ok(token) => Ok(token@),
                Err(reason) => Err(reason@),
            },
        ),
{
    match authenticated {
        Ok(token) => LoginResponse {
            success: true,
            message: "Login successful".to_owned(),
            access_token: Some(token),
            refresh_token: None,
        },
        Err(reason) => {
            let mut message: String = "Authentication failed: ".to_owned();
            message.append(reason.as_str());
            LoginResponse { success: false, message, access_token: None, refresh_token: None }
        },
    }
}

/// The header of a request as the contracts see it.
pub enum HeaderView {
    Absent,
    NotText,
    Text(Seq<char>),
}

impl View for AuthorizationHeader {
    type V = HeaderView;

    open spec fn view(&self) -> HeaderView {
        match self {
            AuthorizationHeader::Absent => HeaderView::Absent,
            AuthorizationHeader::NotText => HeaderView::NotText,
            AuthorizationHeader::Text(text) => HeaderView::Text(text@),
        }
    }
}

/// The answer to a check of the token in a header against the secret of
/// the service, at `now`.
pub open spec fn check_answer(
    header: HeaderView,
    secret: Seq<char>,
    now: int,
) -> LoginResponseView {
    match header {
        HeaderView::Absent => plain_answer(false, "No authorization header"@),
        HeaderView::NotText => plain_answer(false, "Invalid authorization header"@),
        HeaderView::Text(text) => match bearer_token(text) {
            None => plain_answer(false, "Invalid token format"@),
            Some(token) => if validated(token, secret, now) is Ok {
                plain_answer(true, "Token is valid"@)
            } else {
                plain_answer(false, "Invalid or expired token"@)
            },
        },
    }
}

/// Answers a check of the token in a header at `now`.
pub fn check_at(service: &AuthService, header: &AuthorizationHeader, now: i64) -> (response:
    LoginResponse)
    ensures
        response@ == check_answer(header@, service.secret(), now as int),
{
    match header {
        AuthorizationHeader::Absent => answer(false, "No authorization header"),
        AuthorizationHeader::NotText => answer(false, "Invalid authorization header"),
        AuthorizationHeader::Text(text) => match extract_bearer_token(text.as_str()) {
            None => answer(false, "Invalid token format"),
            Some(token) => match service.validate_token_at(token, now) {
                Ok(_) => answer(true, "Token is valid"),
                Err(_) => answer(false, "Invalid or expired token"),
            },
        },
    }
}

/// Answers a check of the token in a header now.
pub fn check(service: &AuthService, header: &AuthorizationHeader) -> (response: LoginResponse)
    ensures
        exists|now: int|
            i64::MIN <= now <= i64::MAX && response@ == #[trigger] check_answer(
                header@,
                service.secret(),
                now,
            ),
{
    let now = read_clock().seconds;
    let response = check_at(service, header, now);
    assert(response@ == check_answer(header@, service.secret(), now as int));
    response
}

/// The transport status for a request to a guarded page: it passes with a
/// good token as bearer, and with nothing else.
pub open spec fn guard_status(header: HeaderView, secret: Seq<char>, now: int) -> u16 {
    if check_answer(header, secret, now).success {
        STATUS_OK
    } else {
        STATUS_UNAUTHORIZED
    }
}

/// Whether a request may pass, as a result: the status with which it is
/// turned away stands in place of an error.
pub open spec fn passage(status: u16) -> Result<(), u16> {
    if status == STATUS_OK {
        Ok(())
    } else {
        Err(status)
    }
}

/// Lets a request pass at `now`, or turns it away as unauthorized.
pub fn admin_required_at(service: &AuthService, header: &AuthorizationHeader, now: i64) -> (passed:
    Result<(), u16>)
    ensures
        passed == passage(guard_status(header@, service.secret(), now as int)),
{
    if check_at(service, header, now).success {
        Ok(())
    } else {
        Err(STATUS_UNAUTHORIZED)
    }
}

/// Lets a request pass, or turns it away as unauthorized.
pub fn admin_required(service: &AuthService, header: &AuthorizationHeader) -> (passed: Result<
    (),
    u16,
>)
    ensures
        exists|now: int|
            i64::MIN <= now <= i64::MAX && passed == passage(
                #[trigger] guard_status(header@, service.secret(), now),
            ),
{
    let now = read_clock().seconds;
    let passed = admin_required_at(service, header, now);
    assert(passed == passage(guard_status(header@, service.secret(), now as int)));
    passed
}

} // verus!
