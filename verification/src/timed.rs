//! The token service for one owner of a pool who brings the time along.
//!
//! Each function makes one aging pass over the pool at the time given and
//! then does what the function of the same name in `token` does with the
//! secrets. Nothing here reads a clock, so what a call returns and what it
//! leaves in the pool follow from its arguments and, where the pool had to
//! be refilled, from the one key that was drawn.

use crate::claims::{Claims, TokenError, TokenKind};
use crate::pool::{aging_pass, KeyPool};
use crate::text::{option_view, str_view};
use crate::token::{
    access_of, check_token, checked_view, given_extras, identity_with_keys, issue_outcome,
    issue_with_key, pair_view, refresh_outcome, refresh_with_keys, request_identity, subject_of,
    text_view, verdict, RequestContext, TokenPair,
};
use vstd::prelude::*;

verus! {

/// Issues an access token and a refresh token for `identity`, made at `now`
/// and signed with the newest key of the pool.
pub fn create_tokens_at(
    pool: &mut KeyPool,
    identity: &str,
    additional_claims: Option<Vec<(String, String)>>,
    now: i64,
    created_at: &str,
) -> (made: Result<TokenPair, TokenError>)
    ensures
        final(pool)@.wf(),
        aging_pass(old(pool)@, now as int, final(pool)@),
        issue_outcome(
            final(pool)@,
            identity@,
            given_extras(additional_claims),
            now as int,
            created_at@,
            pair_view(made),
        ),
{
    let key = pool.current_key(now);
    issue_with_key(identity, additional_claims, now, created_at, key.as_str())
}

/// The access token of a pair issued at `now`; the refresh token is dropped.
pub fn create_jwt_token_at(
    pool: &mut KeyPool,
    identity: &str,
    additional_claims: Option<Vec<(String, String)>>,
    now: i64,
    created_at: &str,
) -> (made: Result<String, TokenError>)
    ensures
        final(pool)@.wf(),
        aging_pass(old(pool)@, now as int, final(pool)@),
        exists|pair: Result<crate::token::TokenPairView, TokenError>| #[trigger]
            issue_outcome(
                final(pool)@,
                identity@,
                given_extras(additional_claims),
                now as int,
                created_at@,
                pair,
            ) && text_view(made) == access_of(pair),
{
    let made = create_tokens_at(pool, identity, additional_claims, now, created_at);
    assert(issue_outcome(
        pool@,
        identity@,
        given_extras(additional_claims),
        now as int,
        created_at@,
        pair_view(made),
    ));
    match made {
        Ok(pair) => Ok(pair.lmoadll_user),
        Err(error) => Err(error),
    }
}

/// Checks a token against the pool as it is at `now`.
pub fn verify_token_at(pool: &mut KeyPool, token: &str, expected: TokenKind, now: i64) -> (checked:
    Result<Claims, TokenError>)
    ensures
        final(pool)@.wf(),
        aging_pass(old(pool)@, now as int, final(pool)@),
        checked_view(checked) == verdict(
            token@,
            final(pool)@.materials_newest_first(),
            expected,
            now as int,
        ),
{
    let keys = pool.all_valid_keys(now);
    check_token(&keys, token, expected, now)
}

/// Trades a refresh token for a new access token, made at `now` for the
/// same identity and signed with the newest key.
pub fn refresh_token_at(
    pool: &mut KeyPool,
    token: &str,
    request_context: Option<&RequestContext>,
    now: i64,
    created_at: &str,
) -> (made: Result<String, TokenError>)
    ensures
        final(pool)@.wf(),
        aging_pass(old(pool)@, now as int, final(pool)@),
        refresh_outcome(final(pool)@, token@, now as int, created_at@, text_view(made)),
{
    let keys = pool.all_valid_keys(now);
    refresh_with_keys(&keys, token, request_context, now, created_at)
}

/// The identity that an access token proves at `now`.
pub fn validate_token_and_get_identity_at(pool: &mut KeyPool, token: &str, now: i64) -> (proved:
    Result<String, TokenError>)
    ensures
        final(pool)@.wf(),
        aging_pass(old(pool)@, now as int, final(pool)@),
        text_view(proved) == subject_of(
            verdict(token@, final(pool)@.materials_newest_first(), TokenKind::Access, now as int),
        ),
{
    match verify_token_at(pool, token, TokenKind::Access, now) {
        Ok(claims) => Ok(claims.sub),
        Err(error) => Err(error),
    }
}

/// The identity of a request at `now`: that of the bearer token in the
/// authorization header, or else that of the token in the cookie.
pub fn get_current_user_identity_at(
    pool: &mut KeyPool,
    authorization_header: Option<&str>,
    cookie_token: Option<&str>,
    now: i64,
) -> (identity: Option<String>)
    ensures
        final(pool)@.wf(),
        aging_pass(old(pool)@, now as int, final(pool)@),
        option_view(identity) == request_identity(
            str_view(authorization_header),
            str_view(cookie_token),
            final(pool)@.materials_newest_first(),
            now as int,
        ),
{
    let keys = pool.all_valid_keys(now);
    identity_with_keys(&keys, authorization_header, cookie_token, now)
}

} // verus!
