//! The cookie that carries the refresh token, as a plain description. The
//! caller writes it into the answer.

use crate::pool::SECONDS_PER_DAY;
use vstd::prelude::*;

verus! {

/// The name of the cookie.
pub const REFRESH_TOKEN_COOKIE_NAME: &'static str = "refresh_token";

/// Days for which the cookie is kept.
pub const REFRESH_TOKEN_MAX_AGE_DAYS: i64 = 7;

/// To which requests a cookie is attached.
#[derive(Clone, Copy, Debug, PartialEq, Eq, Structural)]
pub enum SameSite {
    Strict,
    Lax,
    CrossSite,
}

/// A cookie, attribute by attribute.
#[derive(Debug)]
pub struct Cookie {
    pub name: String,
    pub value: String,
    pub http_only: bool,
    pub secure: bool,
    pub same_site: SameSite,
    pub path: String,
    pub max_age_seconds: i64,
}

/// The attributes that both cookies share: the name, hidden from scripts,
/// sent over any transport, to the same site only, for every path.
pub open spec fn is_refresh_cookie(cookie: Cookie) -> bool {
    &&& cookie.name@ == REFRESH_TOKEN_COOKIE_NAME@
    &&& cookie.http_only
    &&& !cookie.secure
    &&& cookie.same_site == SameSite::Strict
    &&& cookie.path@ == "/"@
}

/// The cookie that hands a refresh token to the browser, for seven days.
pub fn create_refresh_token_cookie(token: &str) -> (cookie: Cookie)
    ensures
        is_refresh_cookie(cookie),
        cookie.value@ == token@,
        cookie.max_age_seconds == REFRESH_TOKEN_MAX_AGE_DAYS * SECONDS_PER_DAY,
{
    Cookie {
        name: REFRESH_TOKEN_COOKIE_NAME.to_owned(),
        value: token.to_owned(),
        http_only: true,
        secure: false,
        same_site: SameSite::Strict,
        path: "/".to_owned(),
        max_age_seconds: REFRESH_TOKEN_MAX_AGE_DAYS * SECONDS_PER_DAY,
    }
}

/// The cookie that takes the refresh token away again: no value, and no
/// time to live.
pub fn create_clear_refresh_token_cookie() -> (cookie: Cookie)
    ensures
        is_refresh_cookie(cookie),
        cookie.value@ == ""@,
        cookie.max_age_seconds == 0,
{
    Cookie {
        name: REFRESH_TOKEN_COOKIE_NAME.to_owned(),
        value: "".to_owned(),
        http_only: true,
        secure: false,
        same_site: SameSite::Strict,
        path: "/".to_owned(),
        max_age_seconds: 0,
    }
}

} // verus!
