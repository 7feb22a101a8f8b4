//! What a token says: who it is for, which of the two kinds it is, and from
//! when until when it is good.

use crate::text::pair_views;
use vstd::prelude::*;

verus! {

/// Minutes for which an access token is good.
pub const ACCESS_MINUTES: i64 = 15;

/// Minutes for which a refresh token is good: seven days.
pub const REFRESH_MINUTES: i64 = 10_080;

/// The two kinds of token. One is never accepted in place of the other.
#[derive(Clone, Copy, Debug, PartialEq, Eq, Structural)]
pub enum TokenKind {
    Access,
    Refresh,
}

impl TokenKind {
    /// The word that stands for the kind inside a token.
    pub open spec fn text(self) -> Seq<char> {
        match self {
            TokenKind::Access => "access"@,
            TokenKind::Refresh => "refresh"@,
        }
    }

    /// The word that stands for the kind inside a token.
    pub fn as_str(&self) -> (word: &'static str)
        ensures
            word@ == self.text(),
    {
        match self {
            TokenKind::Access => "access",
            TokenKind::Refresh => "refresh",
        }
    }

    /// Minutes for which a token of this kind is good.
    pub open spec fn minutes(self) -> int {
        match self {
            TokenKind::Access => ACCESS_MINUTES as int,
            TokenKind::Refresh => REFRESH_MINUTES as int,
        }
    }

    /// Minutes for which a token of this kind is good.
    pub fn lifetime_minutes(&self) -> (minutes: i64)
        ensures
            minutes == self.minutes(),
    {
        match self {
            TokenKind::Access => ACCESS_MINUTES,
            TokenKind::Refresh => REFRESH_MINUTES,
        }
    }
}

/// The two words differ, so a token says plainly which kind it is.
pub proof fn lemma_kinds_differ()
    ensures
        TokenKind::Access.text() != TokenKind::Refresh.text(),
{
    reveal_strlit("access");
    reveal_strlit("refresh");
    assert("access"@.len() != "refresh"@.len());
}

/// Why a token was turned down, or could not be made.
#[derive(Clone, Copy, Debug, PartialEq, Eq, Structural)]
pub enum TokenError {
    /// The text is no token at all.
    MalformedToken,
    /// No key of the pool made this token.
    InvalidSignature,
    /// The token was good once; its time is over.
    Expired,
    /// An access token where a refresh token was due, or the reverse.
    WrongTokenType,
    /// The token names nobody.
    InvalidIdentity,
    /// The claims could not be written out or signed.
    InternalSigningFailure,
}

impl TokenError {
    /// A sentence for the error.
    pub open spec fn sentence(self) -> Seq<char> {
        match self {
            TokenError::MalformedToken => "Malformed token"@,
            TokenError::InvalidSignature => "Invalid signature"@,
            TokenError::Expired => "Token expired"@,
            TokenError::WrongTokenType => "Invalid token type"@,
            TokenError::InvalidIdentity => "Invalid user identity"@,
            TokenError::InternalSigningFailure => "Token could not be signed"@,
        }
    }

    /// A sentence for the error.
    pub fn message(&self) -> (text: &'static str)
        ensures
            text@ == self.sentence(),
    {
        match self {
            TokenError::MalformedToken => "Malformed token",
            TokenError::InvalidSignature => "Invalid signature",
            TokenError::Expired => "Token expired",
            TokenError::WrongTokenType => "Invalid token type",
            TokenError::InvalidIdentity => "Invalid user identity",
            TokenError::InternalSigningFailure => "Token could not be signed",
        }
    }
}

/// The claims of a token as the contracts see them.
pub struct ClaimsView {
    pub sub: Seq<char>,
    pub token_type: Seq<char>,
    pub created_at: Seq<char>,
    pub exp: int,
    pub iat: int,
}

/// The claims of a token.
#[derive(Debug)]
pub struct Claims {
    /// Who the token is for.
    pub sub: String,
    /// `access` or `refresh`.
    pub token_type: String,
    /// When the token was made, written out.
    pub created_at: String,
    /// The last second at which the token is good.
    pub exp: i64,
    /// The second at which the token was made.
    pub iat: i64,
}

impl View for Claims {
    type V = ClaimsView;

    open spec fn view(&self) -> ClaimsView {
        ClaimsView {
            sub: self.sub@,
            token_type: self.token_type@,
            created_at: self.created_at@,
            exp: self.exp as int,
            iat: self.iat as int,
        }
    }
}

/// Extra claims as the contracts see them: names with values, in the order
/// in which the caller gave them.
pub open spec fn extra_views(extras: Seq<(String, String)>) -> Seq<(Seq<char>, Seq<char>)> {
    pair_views(extras)
}

/// The value that the last entry called `name` gives, or `base` where no
/// entry has that name.
pub open spec fn overridden(
    base: Seq<char>,
    name: Seq<char>,
    extras: Seq<(Seq<char>, Seq<char>)>,
) -> Seq<char>
    decreases extras.len(),
{
    if extras.len() == 0 {
        base
    } else if extras.last().0 == name {
        extras.last().1
    } else {
        overridden(base, name, extras.drop_last())
    }
}

/// Whether some entry is called `name`.
pub open spec fn names(extras: Seq<(Seq<char>, Seq<char>)>, name: Seq<char>) -> bool {
    exists|i: int| 0 <= i < extras.len() && (#[trigger] extras[i]).0 == name
}

/// Without an entry of that name the base stands.
pub proof fn lemma_not_overridden(
    base: Seq<char>,
    name: Seq<char>,
    extras: Seq<(Seq<char>, Seq<char>)>,
)
    requires
        !names(extras, name),
    ensures
        overridden(base, name, extras) == base,
    decreases extras.len(),
{
    if extras.len() > 0 {
        assert(extras[extras.len() - 1].0 != name);
        assert forall|i: int| 0 <= i < extras.drop_last().len() implies (
        #[trigger] extras.drop_last()[i]).0 != name by {
            assert(extras[i].0 != name);
        }
        lemma_not_overridden(base, name, extras.drop_last());
    }
}

/// The last second of a token made at `now` that is good for `minutes`.
pub open spec fn expiry(now: int, minutes: int) -> int {
    now + 60 * minutes
}

/// The claims of a token for `identity`, made at `now`. Of the extra claims
/// only `sub` and `created_at` are heeded; the kind and the two times are
/// never taken from them.
pub open spec fn claims_for(
    identity: Seq<char>,
    token_type: Seq<char>,
    minutes: int,
    extras: Seq<(Seq<char>, Seq<char>)>,
    now: int,
    created_at: Seq<char>,
) -> ClaimsView {
    ClaimsView {
        sub: overridden(identity, "sub"@, extras),
        token_type,
        created_at: overridden(created_at, "created_at"@, extras),
        exp: expiry(now, minutes),
        iat: now,
    }
}

/// The value that the last entry called `name` gives, or `base`.
fn pick_override(base: &str, name: &str, extras: &Vec<(String, String)>) -> (value: String)
    ensures
        value@ == overridden(base@, name@, extra_views(extras@)),
{
    let wanted: String = name.to_owned();
    let mut value: String = base.to_owned();
    let mut i: usize = 0;
    assert(extra_views(extras@).take(0) =~= Seq::empty());
    while i < extras.len()
        invariant
            i <= extras.len(),
            wanted@ == name@,
            value@ == overridden(base@, name@, extra_views(extras@).take(i as int)),
        decreases extras.len() - i,
    {
        proof {
            let next = extra_views(extras@).take(i + 1);
            assert(next.drop_last() =~= extra_views(extras@).take(i as int));
            assert(next.last() == (extras@[i as int].0@, extras@[i as int].1@));
        }
        if extras[i].0 == wanted {
            value = extras[i].1.clone();
        }
        i += 1;
    }
    assert(extra_views(extras@).take(extras.len() as int) =~= extra_views(extras@));
    value
}

/// Builds the claims of a token for `identity`, made at `now` and good for
/// `expires_minutes`. Fails only where the expiry cannot be written as a
/// number of seconds.
pub fn create_claims(
    identity: &str,
    token_type: &str,
    expires_minutes: i64,
    additional_claims: &Vec<(String, String)>,
    now: i64,
    created_at: &str,
) -> (made: Result<Claims, TokenError>)
    ensures
        made is Ok <==> i64::MIN <= expiry(now as int, expires_minutes as int) <= i64::MAX,
        made matches Ok(claims) ==> claims@ == claims_for(
            identity@,
            token_type@,
            expires_minutes as int,
            extra_views(additional_claims@),
            now as int,
            created_at@,
        ),
        made matches Err(error) ==> error == TokenError::InternalSigningFailure,
{
    let span: i128 = 60 * (expires_minutes as i128);
    let end: i128 = now as i128 + span;
    if end < i64::MIN as i128 || end > i64::MAX as i128 {
        return Err(TokenError::InternalSigningFailure);
    }
    Ok(
        Claims {
            sub: pick_override(identity, "sub", additional_claims),
            token_type: token_type.to_owned(),
            created_at: pick_override(created_at, "created_at", additional_claims),
            exp: end as i64,
            iat: now,
        },
    )
}

} // verus!
