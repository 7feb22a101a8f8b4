//! The shapes of what the admin pages ask and answer with.

use vstd::prelude::*;

verus! {

/// An answer that is a code and a message, and nothing else.
#[derive(Debug)]
pub struct CommonResponse {
    pub code: u32,
    pub message: String,
}

/// What a login asks with: a name or an email address, and the password.
#[derive(Debug)]
pub struct LoginRequest {
    pub username_email: String,
    pub password: String,
}

/// What a login hands over about the user, with the access token.
#[derive(Debug)]
pub struct LoginData {
    pub uid: u32,
    pub name: String,
    pub avatar: String,
    pub group: String,
    pub access_token: String,
}

/// The answer to a login.
#[derive(Debug)]
pub struct LoginResponse {
    pub code: u32,
    pub message: String,
    pub data: LoginData,
}

/// The access token that a refresh hands over.
#[derive(Debug)]
pub struct TokenData {
    pub access_token: String,
}

/// The answer to a refresh.
#[derive(Debug)]
pub struct TokenRefreshResponse {
    pub code: u32,
    pub message: String,
    pub data: TokenData,
}

/// An answer that names an error and says what happened.
#[derive(Debug)]
pub struct ErrorResponse {
    pub error: String,
    pub message: String,
}

/// The answer to a refresh that went well: the code of a success, the
/// message, and the new access token.
pub fn refreshed_response(access_token: String, message: &str) -> (response: TokenRefreshResponse)
    ensures
        response.code == crate::response::SUCCESS_CODE,
        response.message@ == message@,
        response.data.access_token == access_token,
{
    TokenRefreshResponse {
        code: crate::response::SUCCESS_CODE,
        message: message.to_owned(),
        data: TokenData { access_token },
    }
}

} // verus!
