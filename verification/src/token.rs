//! The token service: issuing a pair of tokens, checking a token, and
//! trading a refresh token for a new access token.
//!
//! Every operation asks the pool for its secrets, which makes one aging
//! pass, and then works on those secrets, the newest first. What it returns
//! is a function of the secrets, its arguments and the time, written down
//! below as `verdict`, `issued`, `refreshed` and `request_identity`. The
//! functions that take the secrets as an argument compute exactly that; the
//! functions that take a manager read the clock, ask the manager and hand
//! over.
//!
//! No token leaves the service unopened: what was signed is opened again
//! with the same key, and is handed out only if it gives the same claims.

use crate::claims::{
    claims_for, create_claims, expiry, extra_views, Claims, ClaimsView, TokenError, TokenKind,
};
use crate::clock::read_clock;
use crate::manager::JwtKeyManager;
use crate::pool::PoolView;
use crate::signing::{
    decode_token, encode_token, has_compact_form, opened_form, opens_as, signed_claims,
    DecodeFailure,
};
use crate::text::{option_view, str_view, to_chars};
use vstd::prelude::*;

verus! {

/// An access token and a refresh token, made together.
#[derive(Debug)]
pub struct TokenPair {
    /// The access token.
    pub lmoadll_user: String,
    /// The refresh token.
    pub lmoadll_refresh_token: String,
}

/// A pair of tokens as the contracts see it.
pub struct TokenPairView {
    pub access: Seq<char>,
    pub refresh: Seq<char>,
}

impl View for TokenPair {
    type V = TokenPairView;

    open spec fn view(&self) -> TokenPairView {
        TokenPairView { access: self.lmoadll_user@, refresh: self.lmoadll_refresh_token@ }
    }
}

/// Where a request came from. It is carried along with a refresh; nothing is
/// decided by it.
#[derive(Debug)]
pub struct RequestContext {
    pub remote_addr: String,
    pub user_agent: String,
}

impl RequestContext {
    /// The context of a request from `remote_addr`, made with `user_agent`.
    pub fn new(remote_addr: String, user_agent: String) -> (context: Self)
        ensures
            context.remote_addr == remote_addr,
            context.user_agent == user_agent,
    {
        Self { remote_addr, user_agent }
    }
}

/// The secrets of a vector, each by its view.
pub open spec fn secret_views(keys: Seq<String>) -> Seq<Seq<char>> {
    keys.map_values(|k: String| k@)
}

/// Whether `key` opens the token and its claims have not expired at `now`.
/// A token is good up to and including its last second.
pub open spec fn is_live(token: Seq<char>, key: Seq<char>, now: int) -> bool {
    opened_form(token, key) matches Ok(claims) && claims.exp >= now
}

/// The claims that the first key from `from` on gives which opens the token
/// to claims that have not expired.
pub open spec fn first_live(token: Seq<char>, keys: Seq<Seq<char>>, now: int, from: int) -> Option<
    ClaimsView,
>
    decreases keys.len() - from,
{
    if from < 0 || from >= keys.len() {
        None
    } else if is_live(token, keys[from], now) {
        Some(opened_form(token, keys[from])->Ok_0)
    } else {
        first_live(token, keys, now, from + 1)
    }
}

/// Whether some key opens the token, expired or not.
pub open spec fn opens_with_any(token: Seq<char>, keys: Seq<Seq<char>>) -> bool {
    exists|i: int| 0 <= i < keys.len() && opened_form(token, #[trigger] keys[i]) is Ok
}

/// Whether some key finds the token unreadable.
pub open spec fn unreadable_with_any(token: Seq<char>, keys: Seq<Seq<char>>) -> bool {
    exists|i: int|
        0 <= i < keys.len() && opened_form(token, #[trigger] keys[i]) == Err::<
            ClaimsView,
            DecodeFailure,
        >(DecodeFailure::Malformed)
}

/// What checking a token against `keys`, the newest first, comes to.
///
/// A text that is not in compact form is malformed. Else the first key that
/// opens the token to claims that have not expired decides: its claims are
/// the answer where their kind is the expected one, and the token is of the
/// wrong kind where it is not. Where no key does, the token has expired if
/// some key opens it, is malformed if some key cannot read it, and else
/// carries a signature that no key made.
pub open spec fn verdict(
    token: Seq<char>,
    keys: Seq<Seq<char>>,
    expected: TokenKind,
    now: int,
) -> Result<ClaimsView, TokenError> {
    if !has_compact_form(token) {
        Err(TokenError::MalformedToken)
    } else {
        match first_live(token, keys, now, 0) {
            Some(claims) => if claims.token_type == expected.text() {
                Ok(claims)
            } else {
                Err(TokenError::WrongTokenType)
            },
            None => if opens_with_any(token, keys) {
                Err(TokenError::Expired)
            } else if unreadable_with_any(token, keys) {
                Err(TokenError::MalformedToken)
            } else {
                Err(TokenError::InvalidSignature)
            },
        }
    }
}

/// The claims of a result, by their view.
pub open spec fn checked_view(checked: Result<Claims, TokenError>) -> Result<
    ClaimsView,
    TokenError,
> {
    match checked {
        Ok(claims) => Ok(claims@),
        Err(error) => Err(error),
    }
}

/// The claims of a token of `kind` for `identity`, made at `now`.
pub open spec fn kind_claims(
    kind: TokenKind,
    identity: Seq<char>,
    extras: Seq<(Seq<char>, Seq<char>)>,
    now: int,
    created_at: Seq<char>,
) -> ClaimsView {
    claims_for(identity, kind.text(), kind.minutes(), extras, now, created_at)
}

/// The token that `key` signs for `claims`, if it is one that opens again:
/// a token in compact form that `key` opens to the same claims. A token
/// that fails this test is not handed out.
pub open spec fn sealed_form(claims: ClaimsView, key: Seq<char>) -> Option<Seq<char>> {
    match signed_claims(claims, key) {
        Some(token) => if opens_as(token, key, claims) {
            Some(token)
        } else {
            None
        },
        None => None,
    }
}

/// The token of `kind` that `key` signs for `identity` at `now`; `None`
/// where the expiry does not fit, the signing fails or the token does not
/// open again.
pub open spec fn minted_form(
    kind: TokenKind,
    identity: Seq<char>,
    extras: Seq<(Seq<char>, Seq<char>)>,
    now: int,
    created_at: Seq<char>,
    key: Seq<char>,
) -> Option<Seq<char>> {
    if expiry(now, kind.minutes()) <= i64::MAX {
        sealed_form(kind_claims(kind, identity, extras, now, created_at), key)
    } else {
        None
    }
}

/// What issuing a pair with `key` comes to: both tokens, or a failure to
/// sign where either cannot be made.
pub open spec fn issued(
    identity: Seq<char>,
    extras: Seq<(Seq<char>, Seq<char>)>,
    now: int,
    created_at: Seq<char>,
    key: Seq<char>,
) -> Result<TokenPairView, TokenError> {
    match (
        minted_form(TokenKind::Access, identity, extras, now, created_at, key),
        minted_form(TokenKind::Refresh, identity, extras, now, created_at, key),
    ) {
        (Some(access), Some(refresh)) => Ok(TokenPairView { access, refresh }),
        _ => Err(TokenError::InternalSigningFailure),
    }
}

/// A pair that was issued opens again with the key that signed it.
pub open spec fn pair_opens(
    pair: TokenPairView,
    identity: Seq<char>,
    extras: Seq<(Seq<char>, Seq<char>)>,
    now: int,
    created_at: Seq<char>,
    key: Seq<char>,
) -> bool {
    &&& opens_as(
        pair.access,
        key,
        kind_claims(TokenKind::Access, identity, extras, now, created_at),
    )
    &&& opens_as(
        pair.refresh,
        key,
        kind_claims(TokenKind::Refresh, identity, extras, now, created_at),
    )
}

/// What a refresh comes to, given the secrets of the pool, the newest
/// first: the error of the check where the token does not pass as a refresh
/// token, a missing identity where it names nobody, and else a new access
/// token for the same identity, signed with the newest key.
pub open spec fn refreshed(
    token: Seq<char>,
    keys: Seq<Seq<char>>,
    now: int,
    created_at: Seq<char>,
) -> Result<Seq<char>, TokenError> {
    match verdict(token, keys, TokenKind::Refresh, now) {
        Err(error) => Err(error),
        Ok(claims) => if claims.sub.len() == 0 {
            Err(TokenError::InvalidIdentity)
        } else {
            match minted_form(
                TokenKind::Access,
                claims.sub,
                Seq::empty(),
                now,
                created_at,
                keys[0],
            ) {
                Some(access) => Ok(access),
                None => Err(TokenError::InternalSigningFailure),
            }
        },
    }
}

/// The identity behind a refresh: the subject of the refresh token.
pub open spec fn refresh_subject(token: Seq<char>, keys: Seq<Seq<char>>, now: int) -> Seq<char> {
    verdict(token, keys, TokenKind::Refresh, now)->Ok_0.sub
}

/// The token after the words `Bearer ` in an authorization header.
pub open spec fn bearer_token(header: Seq<char>) -> Option<Seq<char>> {
    if header.len() >= 7 && header.subrange(0, 7) == "Bearer "@ {
        Some(header.subrange(7, header.len() as int))
    } else {
        None
    }
}

/// The identity that an access token proves.
pub open spec fn identity_of(token: Seq<char>, keys: Seq<Seq<char>>, now: int) -> Option<
    Seq<char>,
> {
    match verdict(token, keys, TokenKind::Access, now) {
        Ok(claims) => Some(claims.sub),
        Err(_) => None,
    }
}

/// The identity of a request: the one that the bearer token of the header
/// proves, or else the one that the cookie proves.
pub open spec fn request_identity(
    header: Option<Seq<char>>,
    cookie: Option<Seq<char>>,
    keys: Seq<Seq<char>>,
    now: int,
) -> Option<Seq<char>> {
    let by_header = match header {
        Some(text) => match bearer_token(text) {
            Some(token) => identity_of(token, keys, now),
            None => None,
        },
        None => None,
    };
    if by_header is Some {
        by_header
    } else {
        match cookie {
            Some(token) => identity_of(token, keys, now),
            None => None,
        }
    }
}

/// Whether the text has exactly two full stops.
pub fn is_compact(token: &str) -> (compact: bool)
    ensures
        compact == has_compact_form(token@),
{
    let ghost is_dot = |c: char| c == '.';
    let chars = to_chars(token);
    let mut dots: usize = 0;
    let mut i: usize = 0;
    proof {
        reveal(Seq::filter);
        assert(token@.take(0).filter(is_dot) == Seq::<char>::empty());
    }
    while i < chars.len()
        invariant
            i <= chars.len(),
            chars@ == token@,
            is_dot == (|c: char| c == '.'),
            dots <= 3,
            dots < 3 ==> dots == token@.take(i as int).filter(is_dot).len(),
            dots == 3 ==> token@.take(i as int).filter(is_dot).len() >= 3,
        decreases chars.len() - i,
    {
        proof {
            let so_far = token@.take(i as int);
            assert(token@.take(i + 1) == so_far.push(token@[i as int]));
            so_far.lemma_filter_push(token@[i as int], is_dot);
        }
        if chars[i] == '.' && dots < 3 {
            dots += 1;
        }
        i += 1;
    }
    assert(token@.take(chars.len() as int) == token@);
    dots == 2
}

/// What each of `keys` makes of a token, in their order.
pub open spec fn outcomes_of(token: Seq<char>, keys: Seq<Seq<char>>) -> Seq<
    Result<ClaimsView, DecodeFailure>,
> {
    Seq::new(keys.len(), |i: int| opened_form(token, keys[i]))
}

/// The outcomes of a vector, by their views.
pub open spec fn outcome_views(outcomes: Seq<Result<Claims, DecodeFailure>>) -> Seq<
    Result<ClaimsView, DecodeFailure>,
> {
    outcomes.map_values(
        |outcome: Result<Claims, DecodeFailure>|
            match outcome {
                Ok(claims) => Ok(claims@),
                Err(failure) => Err(failure),
            },
    )
}

/// Whether an outcome is claims that have not expired at `now`.
pub open spec fn is_good(outcome: Result<ClaimsView, DecodeFailure>, now: int) -> bool {
    outcome matches Ok(claims) && claims.exp >= now
}

/// The claims of the first outcome from `from` on that is claims which
/// have not expired.
pub open spec fn first_good(
    outcomes: Seq<Result<ClaimsView, DecodeFailure>>,
    now: int,
    from: int,
) -> Option<ClaimsView>
    decreases outcomes.len() - from,
{
    if from < 0 || from >= outcomes.len() {
        None
    } else if is_good(outcomes[from], now) {
        Some(outcomes[from]->Ok_0)
    } else {
        first_good(outcomes, now, from + 1)
    }
}

/// What the outcomes of the keys, the newest first, come to for a token in
/// compact form. The first claims that have not expired decide: they are
/// the answer where their kind is the expected one, and the token is of the
/// wrong kind where it is not. Without such claims the token has expired if
/// some key opened it, is malformed if some key could not read it, and else
/// carries a signature that no key made.
pub open spec fn judged(
    outcomes: Seq<Result<ClaimsView, DecodeFailure>>,
    expected: TokenKind,
    now: int,
) -> Result<ClaimsView, TokenError> {
    match first_good(outcomes, now, 0) {
        Some(claims) => if claims.token_type == expected.text() {
            Ok(claims)
        } else {
            Err(TokenError::WrongTokenType)
        },
        None => if exists|i: int| 0 <= i < outcomes.len() && (#[trigger] outcomes[i]) is Ok {
            Err(TokenError::Expired)
        } else if exists|i: int|
            0 <= i < outcomes.len() && (#[trigger] outcomes[i]) == Err::<
                ClaimsView,
                DecodeFailure,
            >(DecodeFailure::Malformed) {
            Err(TokenError::MalformedToken)
        } else {
            Err(TokenError::InvalidSignature)
        },
    }
}

/// The first good outcome is the one at `at` where none before it is good.
pub proof fn lemma_first_good_at(
    outcomes: Seq<Result<ClaimsView, DecodeFailure>>,
    now: int,
    from: int,
    at: int,
)
    requires
        0 <= from <= at < outcomes.len(),
        is_good(outcomes[at], now),
        forall|j: int| from <= j < at ==> !is_good(#[trigger] outcomes[j], now),
    ensures
        first_good(outcomes, now, from) == Some(outcomes[at]->Ok_0),
    decreases at - from,
{
    if from < at {
        assert(!is_good(outcomes[from], now));
        lemma_first_good_at(outcomes, now, from + 1, at);
    }
}

/// Judging the outcomes of the keys is the verdict on the token.
pub proof fn lemma_judged_is_verdict(
    token: Seq<char>,
    keys: Seq<Seq<char>>,
    expected: TokenKind,
    now: int,
)
    requires
        has_compact_form(token),
    ensures
        judged(outcomes_of(token, keys), expected, now) == verdict(token, keys, expected, now),
{
    let outcomes = outcomes_of(token, keys);
    lemma_first_good_is_first_live(token, keys, now, 0);
    if opens_with_any(token, keys) {
        let i = choose|i: int| 0 <= i < keys.len() && opened_form(token, #[trigger] keys[i]) is Ok;
        assert(outcomes[i] is Ok);
    }
    if exists|i: int| 0 <= i < outcomes.len() && (#[trigger] outcomes[i]) is Ok {
        let i = choose|i: int| 0 <= i < outcomes.len() && (#[trigger] outcomes[i]) is Ok;
        assert(opened_form(token, keys[i]) is Ok);
    }
    if unreadable_with_any(token, keys) {
        let i = choose|i: int|
            0 <= i < keys.len() && opened_form(token, #[trigger] keys[i]) == Err::<
                ClaimsView,
                DecodeFailure,
            >(DecodeFailure::Malformed);
        assert(outcomes[i] == Err::<ClaimsView, DecodeFailure>(DecodeFailure::Malformed));
    }
    if exists|i: int|
        0 <= i < outcomes.len() && (#[trigger] outcomes[i]) == Err::<ClaimsView, DecodeFailure>(
            DecodeFailure::Malformed,
        ) {
        let i = choose|i: int|
            0 <= i < outcomes.len() && (#[trigger] outcomes[i]) == Err::<
                ClaimsView,
                DecodeFailure,
            >(DecodeFailure::Malformed);
        assert(opened_form(token, keys[i]) == Err::<ClaimsView, DecodeFailure>(
            DecodeFailure::Malformed,
        ));
    }
}

/// The first good outcome of the keys is the first live claims.
pub proof fn lemma_first_good_is_first_live(
    token: Seq<char>,
    keys: Seq<Seq<char>>,
    now: int,
    from: int,
)
    requires
        0 <= from,
    ensures
        first_good(outcomes_of(token, keys), now, from) == first_live(token, keys, now, from),
    decreases keys.len() - from,
{
    if from < keys.len() {
        assert(outcomes_of(token, keys)[from] == opened_form(token, keys[from]));
        lemma_first_good_is_first_live(token, keys, now, from + 1);
    }
}

/// A copy of claims.
fn copy_claims(claims: &Claims) -> (copy: Claims)
    ensures
        copy@ == claims@,
{
    Claims {
        sub: claims.sub.clone(),
        token_type: claims.token_type.clone(),
        created_at: claims.created_at.clone(),
        exp: claims.exp,
        iat: claims.iat,
    }
}

/// Decides on a token in compact form from what each key made of it, the
/// newest key first.
pub fn judge(
    outcomes: &Vec<Result<Claims, DecodeFailure>>,
    expected: TokenKind,
    now: i64,
) -> (checked: Result<Claims, TokenError>)
    ensures
        checked_view(checked) == judged(outcome_views(outcomes@), expected, now as int),
{
    let ghost views = outcome_views(outcomes@);
    let mut opened: bool = false;
    let mut unreadable: bool = false;
    let mut i: usize = 0;
    while i < outcomes.len()
        invariant
            i <= outcomes.len(),
            views == outcome_views(outcomes@),
            opened == exists|j: int| 0 <= j < i && (#[trigger] views[j]) is Ok,
            unreadable == exists|j: int|
                0 <= j < i && (#[trigger] views[j]) == Err::<ClaimsView, DecodeFailure>(
                    DecodeFailure::Malformed,
                ),
            first_good(views, now as int, 0) == first_good(views, now as int, i as int),
        decreases outcomes.len() - i,
    {
        match &outcomes[i] {
            Ok(claims) => {
                assert(views[i as int] == Ok::<ClaimsView, DecodeFailure>(claims@));
                if claims.exp >= now {
                    return if claims.token_type == expected.as_str().to_owned() {
                        Ok(copy_claims(claims))
                    } else {
                        Err(TokenError::WrongTokenType)
                    };
                }
                opened = true;
            },
            Err(DecodeFailure::BadSignature) => {
                assert(views[i as int] == Err::<ClaimsView, DecodeFailure>(
                    DecodeFailure::BadSignature,
                ));
            },
            Err(DecodeFailure::Malformed) => {
                assert(views[i as int] == Err::<ClaimsView, DecodeFailure>(
                    DecodeFailure::Malformed,
                ));
                unreadable = true;
            },
        }
        i += 1;
    }
    if opened {
        Err(TokenError::Expired)
    } else if unreadable {
        Err(TokenError::MalformedToken)
    } else {
        Err(TokenError::InvalidSignature)
    }
}

/// Checks a token against the given secrets, the newest first. The keys
/// are tried up to the first that opens the token to claims which have not
/// expired.
pub fn check_token(keys: &Vec<String>, token: &str, expected: TokenKind, now: i64) -> (checked:
    Result<Claims, TokenError>)
    ensures
        checked_view(checked) == verdict(token@, secret_views(keys@), expected, now as int),
{
    if !is_compact(token) {
        return Err(TokenError::MalformedToken);
    }
    let ghost secrets = secret_views(keys@);
    let ghost all = outcomes_of(token@, secrets);
    let mut outcomes: Vec<Result<Claims, DecodeFailure>> = Vec::new();
    let mut live: bool = false;
    let mut i: usize = 0;
    assert(outcome_views(outcomes@) =~= all.take(0));
    while i < keys.len() && !live
        invariant
            i <= keys.len(),
            secrets == secret_views(keys@),
            all == outcomes_of(token@, secrets),
            outcome_views(outcomes@) == all.take(i as int),
            live ==> i > 0 && is_good(all[i - 1], now as int),
            forall|j: int| 0 <= j < i - 1 ==> !is_good(#[trigger] all[j], now as int),
            !live && i > 0 ==> !is_good(all[i - 1], now as int),
        decreases keys.len() - i, !live as int,
    {
        assert(secrets[i as int] == keys@[i as int]@);
        let outcome = decode_token(token, keys[i].as_str());
        live = match &outcome {
            Ok(claims) => claims.exp >= now,
            Err(_) => false,
        };
        let ghost before = outcome_views(outcomes@);
        outcomes.push(outcome);
        assert(outcome_views(outcomes@) =~= before.push(all[i as int]));
        assert(all.take(i + 1) =~= before.push(all[i as int]));
        i += 1;
    }
    proof {
        let seen = all.take(i as int);
        lemma_judged_is_verdict(token@, secrets, expected, now as int);
        if live {
            assert(seen[i - 1] == all[i - 1]);
            assert forall|j: int| 0 <= j < i - 1 implies !is_good(
                #[trigger] seen[j],
                now as int,
            ) by {
                assert(seen[j] == all[j]);
            }
            lemma_first_good_at(seen, now as int, 0, i - 1);
            lemma_first_good_at(all, now as int, 0, i - 1);
        } else {
            assert(seen =~= all);
        }
    }
    judge(&outcomes, expected, now)
}

/// Signs one token of `kind` for `identity` with `key`.
fn mint(
    kind: TokenKind,
    identity: &str,
    extras: &Vec<(String, String)>,
    now: i64,
    created_at: &str,
    key: &str,
) -> (token: Option<String>)
    ensures
        option_view(token) == minted_form(
            kind,
            identity@,
            extra_views(extras@),
            now as int,
            created_at@,
            key@,
        ),
{
    match create_claims(identity, kind.as_str(), kind.lifetime_minutes(), extras, now, created_at) {
        Ok(claims) => seal(&claims, key),
        Err(_) => None,
    }
}

/// Whether two sets of claims say the same.
fn same_claims(left: &Claims, right: &Claims) -> (same: bool)
    ensures
        same == (left@ == right@),
{
    left.sub == right.sub && left.token_type == right.token_type && left.created_at
        == right.created_at && left.exp == right.exp && left.iat == right.iat
}

/// Signs the claims with `key` and opens the token again with the same key:
/// a token that is not in compact form, or does not give the claims back,
/// is withheld.
pub fn seal(claims: &Claims, key: &str) -> (token: Option<String>)
    ensures
        option_view(token) == sealed_form(claims@, key@),
{
    match encode_token(claims, key) {
        Some(text) => {
            let opened = is_compact(text.as_str()) && match decode_token(text.as_str(), key) {
                Ok(read) => same_claims(&read, claims),
                Err(_) => false,
            };
            if opened {
                Some(text)
            } else {
                None
            }
        },
        None => None,
    }
}

/// The extra claims that a caller gave, or none.
pub open spec fn given_extras(additional_claims: Option<Vec<(String, String)>>) -> Seq<
    (Seq<char>, Seq<char>),
> {
    match additional_claims {
        Some(extras) => extra_views(extras@),
        None => Seq::empty(),
    }
}

/// The tokens of a result, by their view.
pub open spec fn pair_view(made: Result<TokenPair, TokenError>) -> Result<
    TokenPairView,
    TokenError,
> {
    match made {
        Ok(pair) => Ok(pair@),
        Err(error) => Err(error),
    }
}

/// The text of a result, by its view.
pub open spec fn text_view(made: Result<String, TokenError>) -> Result<Seq<char>, TokenError> {
    match made {
        Ok(text) => Ok(text@),
        Err(error) => Err(error),
    }
}

/// The access token of a pair, or the error in its place.
pub open spec fn access_of(pair: Result<TokenPairView, TokenError>) -> Result<
    Seq<char>,
    TokenError,
> {
    match pair {
        Ok(pair) => Ok(pair.access),
        Err(error) => Err(error),
    }
}

/// The subject of the claims, or the error in their place.
pub open spec fn subject_of(checked: Result<ClaimsView, TokenError>) -> Result<
    Seq<char>,
    TokenError,
> {
    match checked {
        Ok(claims) => Ok(claims.sub),
        Err(error) => Err(error),
    }
}

/// The token of an authorization header that starts with `Bearer `.
pub fn extract_bearer_token(header: &str) -> (token: Option<&str>)
    ensures
        str_view(token) == bearer_token(header@),
{
    let prefix: &str = "Bearer ";
    proof {
        reveal_strlit("Bearer ");
    }
    let length: usize = header.unicode_len();
    if length < 7 {
        return None;
    }
    let mut i: usize = 0;
    while i < 7
        invariant
            i <= 7,
            length == header@.len(),
            length >= 7,
            prefix@ == "Bearer "@,
            prefix@.len() == 7,
            forall|j: int| 0 <= j < i ==> header@[j] == prefix@[j],
        decreases 7 - i,
    {
        if header.get_char(i) != prefix.get_char(i) {
            assert(header@.subrange(0, 7)[i as int] != prefix@[i as int]);
            return None;
        }
        i += 1;
    }
    assert(header@.subrange(0, 7) =~= prefix@);
    Some(header.substring_char(7, length))
}

/// What an issue at `now` comes to where `pool` is the pool that it saw:
/// the pair that its newest key signs.
pub open spec fn issue_outcome(
    pool: PoolView,
    identity: Seq<char>,
    extras: Seq<(Seq<char>, Seq<char>)>,
    now: int,
    created_at: Seq<char>,
    made: Result<TokenPairView, TokenError>,
) -> bool {
    made == issued(identity, extras, now, created_at, pool.newest().material)
}

/// What a refresh at `now` comes to where `pool` is the pool that it saw:
/// the access token that its newest key signs for the subject of the
/// refresh token.
pub open spec fn refresh_outcome(
    pool: PoolView,
    token: Seq<char>,
    now: int,
    created_at: Seq<char>,
    made: Result<Seq<char>, TokenError>,
) -> bool {
    made == refreshed(token, pool.materials_newest_first(), now, created_at)
}

/// Nothing to set up: a manager is made with `JwtKeyManager::new` and handed
/// to the functions below.
pub fn init_jwt_manager() -> (done: Result<(), TokenError>)
    ensures
        done is Ok,
{
    Ok(())
}

/// Issues an access token and a refresh token for `identity`, made at `now`
/// and signed with `key`. `created_at` is the time written out, as the
/// tokens are to carry it.
pub fn issue_with_key(
    identity: &str,
    additional_claims: Option<Vec<(String, String)>>,
    now: i64,
    created_at: &str,
    key: &str,
) -> (made: Result<TokenPair, TokenError>)
    ensures
        pair_view(made) == issued(
            identity@,
            given_extras(additional_claims),
            now as int,
            created_at@,
            key@,
        ),
{
    let extras: Vec<(String, String)> = match additional_claims {
        Some(extras) => extras,
        None => Vec::new(),
    };
    assert(extra_views(extras@) =~= given_extras(additional_claims));
    let access = mint(TokenKind::Access, identity, &extras, now, created_at, key);
    let refresh = mint(TokenKind::Refresh, identity, &extras, now, created_at, key);
    match (access, refresh) {
        (Some(access), Some(refresh)) => Ok(
            TokenPair { lmoadll_user: access, lmoadll_refresh_token: refresh },
        ),
        _ => Err(TokenError::InternalSigningFailure),
    }
}

/// Trades a refresh token for a new access token, made at `now` for the
/// same identity and signed with the first of `keys`. The refresh token
/// stays good; the context is not consulted.
pub fn refresh_with_keys(
    keys: &Vec<String>,
    token: &str,
    request_context: Option<&RequestContext>,
    now: i64,
    created_at: &str,
) -> (made: Result<String, TokenError>)
    ensures
        text_view(made) == refreshed(token@, secret_views(keys@), now as int, created_at@),
{
    let claims = match check_token(keys, token, TokenKind::Refresh, now) {
        Ok(claims) => claims,
        Err(error) => {
            return Err(error);
        },
    };
    if claims.sub.as_str().is_empty() {
        return Err(TokenError::InvalidIdentity);
    }
    assert(keys@.len() > 0) by {
        assert(secret_views(keys@).len() == keys@.len());
    }
    let none: Vec<(String, String)> = Vec::new();
    assert(extra_views(none@) =~= Seq::empty());
    assert(secret_views(keys@)[0] == keys@[0]@);
    match mint(TokenKind::Access, claims.sub.as_str(), &none, now, created_at, keys[0].as_str()) {
        Some(access) => Ok(access),
        None => Err(TokenError::InternalSigningFailure),
    }
}

/// The identity of a request at `now`: that of the bearer token in the
/// authorization header, or else that of the token in the cookie.
pub fn identity_with_keys(
    keys: &Vec<String>,
    authorization_header: Option<&str>,
    cookie_token: Option<&str>,
    now: i64,
) -> (identity: Option<String>)
    ensures
        option_view(identity) == request_identity(
            str_view(authorization_header),
            str_view(cookie_token),
            secret_views(keys@),
            now as int,
        ),
{
    if let Some(header) = authorization_header {
        if let Some(token) = extract_bearer_token(header) {
            if let Ok(claims) = check_token(keys, token, TokenKind::Access, now) {
                return Some(claims.sub);
            }
        }
    }
    if let Some(token) = cookie_token {
        if let Ok(claims) = check_token(keys, token, TokenKind::Access, now) {
            return Some(claims.sub);
        }
    }
    None
}

/// Issues an access token and a refresh token for `identity`, made now and
/// signed with the key that signs now.
pub fn create_tokens(
    manager: &JwtKeyManager,
    identity: &str,
    additional_claims: Option<Vec<(String, String)>>,
) -> (made: Result<TokenPair, TokenError>)
    ensures
        exists|pool: PoolView, now: int, created_at: Seq<char>|
            manager.seen_at(pool, now) && #[trigger] issue_outcome(
                pool,
                identity@,
                given_extras(additional_claims),
                now,
                created_at,
                pair_view(made),
            ),
{
    let reading = read_clock();
    let key = manager.get_current_key_at(reading.seconds);
    let made = issue_with_key(
        identity,
        additional_claims,
        reading.seconds,
        reading.text.as_str(),
        key.as_str(),
    );
    proof {
        let pool = choose|pool: PoolView| #[trigger]
            manager.seen_at(pool, reading.seconds as int) && key@ == pool.newest().material;
        assert(issue_outcome(
            pool,
            identity@,
            given_extras(additional_claims),
            reading.seconds as int,
            reading.text@,
            pair_view(made),
        ));
    }
    made
}

/// The access token of a pair issued now; the refresh token is dropped.
pub fn create_jwt_token(
    manager: &JwtKeyManager,
    identity: &str,
    additional_claims: Option<Vec<(String, String)>>,
) -> (made: Result<String, TokenError>)
    ensures
        exists|
            pool: PoolView,
            now: int,
            created_at: Seq<char>,
            pair: Result<TokenPairView, TokenError>,
        |
            manager.seen_at(pool, now) && #[trigger] issue_outcome(
                pool,
                identity@,
                given_extras(additional_claims),
                now,
                created_at,
                pair,
            ) && text_view(made) == access_of(pair),
{
    let made = create_tokens(manager, identity, additional_claims);
    match made {
        Ok(pair) => Ok(pair.lmoadll_user),
        Err(error) => Err(error),
    }
}

/// Checks a token against the secrets that are acceptable now.
pub fn verify_token(manager: &JwtKeyManager, token: &str, expected: TokenKind) -> (checked: Result<
    Claims,
    TokenError,
>)
    ensures
        exists|pool: PoolView, now: int|
            manager.seen_at(pool, now) && checked_view(checked) == #[trigger] verdict(
                token@,
                pool.materials_newest_first(),
                expected,
                now,
            ),
{
    let now = read_clock().seconds;
    let keys = manager.get_all_valid_keys_at(now);
    let checked = check_token(&keys, token, expected, now);
    proof {
        let pool = choose|pool: PoolView| #[trigger]
            manager.seen_at(pool, now as int) && secret_views(keys@)
                == pool.materials_newest_first();
        assert(checked_view(checked) == verdict(
            token@,
            pool.materials_newest_first(),
            expected,
            now as int,
        ));
    }
    checked
}

/// Trades a refresh token for a new access token, made now.
pub fn refresh_token(
    manager: &JwtKeyManager,
    token: &str,
    request_context: Option<&RequestContext>,
) -> (made: Result<String, TokenError>)
    ensures
        exists|pool: PoolView, now: int, created_at: Seq<char>|
            manager.seen_at(pool, now) && #[trigger] refresh_outcome(
                pool,
                token@,
                now,
                created_at,
                text_view(made),
            ),
{
    let reading = read_clock();
    let keys = manager.get_all_valid_keys_at(reading.seconds);
    let made = refresh_with_keys(
        &keys,
        token,
        request_context,
        reading.seconds,
        reading.text.as_str(),
    );
    proof {
        let pool = choose|pool: PoolView| #[trigger]
            manager.seen_at(pool, reading.seconds as int) && secret_views(keys@)
                == pool.materials_newest_first();
        if made is Ok {
            assert(secret_views(keys@)[0] == keys@[0]@);
        }
        assert(refresh_outcome(
            pool,
            token@,
            reading.seconds as int,
            reading.text@,
            text_view(made),
        ));
    }
    made
}

/// The identity that an access token proves now.
pub fn validate_token_and_get_identity(manager: &JwtKeyManager, token: &str) -> (proved: Result<
    String,
    TokenError,
>)
    ensures
        exists|pool: PoolView, now: int|
            manager.seen_at(pool, now) && text_view(proved) == subject_of(
                #[trigger] verdict(token@, pool.materials_newest_first(), TokenKind::Access, now),
            ),
{
    match verify_token(manager, token, TokenKind::Access) {
        Ok(claims) => Ok(claims.sub),
        Err(error) => Err(error),
    }
}

/// The identity of a request now.
pub fn get_current_user_identity(
    manager: &JwtKeyManager,
    authorization_header: Option<&str>,
    cookie_token: Option<&str>,
) -> (identity: Option<String>)
    ensures
        exists|pool: PoolView, now: int|
            manager.seen_at(pool, now) && option_view(identity) == #[trigger] request_identity(
                str_view(authorization_header),
                str_view(cookie_token),
                pool.materials_newest_first(),
                now,
            ),
{
    let now = read_clock().seconds;
    let keys = manager.get_all_valid_keys_at(now);
    let identity = identity_with_keys(&keys, authorization_header, cookie_token, now);
    proof {
        let pool = choose|pool: PoolView| #[trigger]
            manager.seen_at(pool, now as int) && secret_views(keys@)
                == pool.materials_newest_first();
        assert(option_view(identity) == request_identity(
            str_view(authorization_header),
            str_view(cookie_token),
            pool.materials_newest_first(),
            now as int,
        ));
    }
    identity
}

} // verus!
