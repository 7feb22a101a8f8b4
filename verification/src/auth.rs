//! Signing somebody in: the password is held against the stored hash, and
//! a match earns a token that is good for a day. The token is signed with
//! the one secret that the service was set up with. Finding the record of
//! the user is the caller's part.

use crate::clock::read_clock;
use crate::handlers::{login, login_answer, LoginRequest, LoginResponse};
use crate::signing::{
    has_compact_form, member_views, name_views, named_views, open_members, read_members,
    sign_members, signed_form, invalid_token, Member, MemberView,
};
use crate::token::is_compact;
use argon2::{Argon2, PasswordHash, PasswordVerifier};
use vstd::prelude::*;
use vstd::string::*;

verus! {

/// Seconds for which a token is good: one day.
pub const TOKEN_SECONDS: i64 = 86_400;

/// Seconds for which a token is still accepted after its expiry.
pub const LEEWAY_SECONDS: i64 = 60;

/// The record of a user. The two times are in seconds since the epoch.
#[derive(Debug)]
pub struct User {
    pub id: i32,
    pub username: String,
    pub email: String,
    pub password_hash: String,
    pub is_admin: bool,
    pub created_at: i64,
    pub updated_at: i64,
}

/// What a token of this service says.
#[derive(Debug)]
pub struct AuthClaims {
    /// The email address of the user.
    pub sub: String,
    /// The second at which the token expires.
    pub exp: usize,
    /// Whether the user is an administrator.
    pub is_admin: bool,
}

/// The claims as the contracts see them.
pub struct AuthClaimsView {
    pub sub: Seq<char>,
    pub exp: int,
    pub is_admin: bool,
}

impl View for AuthClaims {
    type V = AuthClaimsView;

    open spec fn view(&self) -> AuthClaimsView {
        AuthClaimsView { sub: self.sub@, exp: self.exp as int, is_admin: self.is_admin }
    }
}

/// What holding a password against a stored hash comes to.
#[derive(Debug)]
pub enum PasswordCheck {
    /// The password is the one that was hashed.
    Matches,
    /// It is another one.
    Differs,
    /// The stored text is no hash; the words say what is wrong with it.
    BadHash(String),
}

/// The outcome of a check as the contracts see it.
pub enum PasswordCheckView {
    Matches,
    Differs,
    BadHash(Seq<char>),
}

impl View for PasswordCheck {
    type V = PasswordCheckView;

    open spec fn view(&self) -> PasswordCheckView {
        match self {
            PasswordCheck::Matches => PasswordCheckView::Matches,
            PasswordCheck::Differs => PasswordCheckView::Differs,
            PasswordCheck::BadHash(words) => PasswordCheckView::BadHash(words@),
        }
    }
}

/// What Argon2 with its default settings makes of a password and a stored
/// hash in PHC format.
pub uninterp spec fn password_check(
    password: Seq<char>,
    stored_hash: Seq<char>,
) -> PasswordCheckView;

/// `argon2::PasswordHash::new` on the stored text, then
/// `Argon2::default().verify_password` with the bytes of the password. A
/// text that does not parse gives the parser's words; every failure of the
/// verification counts as a password that differs. The contract gives the
/// result a name and says nothing of it.
#[verifier::external_body]
fn check_password(password: &str, stored_hash: &str) -> (checked: PasswordCheck)
    ensures
        checked@ == password_check(password@, stored_hash@),
{
    match PasswordHash::new(stored_hash) {
        Err(error) => PasswordCheck::BadHash(error.to_string()),
        Ok(parsed) => match Argon2::default().verify_password(password.as_bytes(), &parsed) {
            Ok(()) => PasswordCheck::Matches,
            Err(_) => PasswordCheck::Differs,
        },
    }
}

/// What the search for a user came to, as a plain value: the record, no
/// record, or the words of the failure to search.
pub open spec fn found(user: Result<Option<&User>, &str>) -> Result<Option<User>, Seq<char>> {
    match user {
        Ok(Some(user)) => Ok(Some(*user)),
        Ok(None) => Ok(None),
        Err(words) => Err(words@),
    }
}

/// Why somebody is not signed in, if there is a reason: the search failed,
/// there is no such user, the password differs, or the stored hash is none.
/// An unknown user and a wrong password are told in the same words.
pub open spec fn refusal(user: Result<Option<User>, Seq<char>>, password: Seq<char>) -> Option<
    Seq<char>,
> {
    match user {
        Err(words) => Some("Database error: "@ + words),
        Ok(None) => Some("Invalid email or password"@),
        Ok(Some(user)) => match password_check(password, user.password_hash@) {
            PasswordCheckView::Matches => None,
            PasswordCheckView::Differs => Some("Invalid email or password"@),
            PasswordCheckView::BadHash(words) => Some("Password hash error: "@ + words),
        },
    }
}

/// Why somebody is not signed in, if there is a reason.
pub fn refuse(user: Result<Option<&User>, &str>, password: &str) -> (reason: Option<String>)
    ensures
        match reason {
            Some(words) => refusal(found(user), password@) == Some(words@),
            None => refusal(found(user), password@) is None,
        },
{
    match user {
        Err(words) => {
            let mut reason: String = "Database error: ".to_owned();
            reason.append(words);
            Some(reason)
        },
        Ok(None) => Some("Invalid email or password".to_owned()),
        Ok(Some(user)) => match check_password(password, user.password_hash.as_str()) {
            PasswordCheck::Matches => None,
            PasswordCheck::Differs => Some("Invalid email or password".to_owned()),
            PasswordCheck::BadHash(words) => {
                let mut reason: String = "Password hash error: ".to_owned();
                reason.append(words.as_str());
                Some(reason)
            },
        },
    }
}

/// The names of the three members of the claims.
pub open spec fn claim_names() -> Seq<Seq<char>> {
    seq!["sub"@, "exp"@, "is_admin"@]
}

/// The claims, member by member.
pub open spec fn members_of(claims: AuthClaimsView) -> Seq<(Seq<char>, MemberView)> {
    seq![
        ("sub"@, MemberView::Text(claims.sub)),
        ("exp"@, MemberView::Number(claims.exp)),
        ("is_admin"@, MemberView::Flag(claims.is_admin)),
    ]
}

/// The claims that three members make; none where a member is missing or
/// of another kind, or the expiry is no count of seconds.
pub open spec fn claims_of(members: Seq<MemberView>) -> Option<AuthClaimsView> {
    match (members[0], members[1], members[2]) {
        (MemberView::Text(sub), MemberView::Number(exp), MemberView::Flag(is_admin)) => if 0
            <= exp <= usize::MAX {
            Some(AuthClaimsView { sub, exp, is_admin })
        } else {
            None
        },
        _ => None,
    }
}

/// What the secret makes of a token: its claims, or the words for what is
/// wrong. A token whose claims are not these three counts as no token.
pub open spec fn opened_claims(token: Seq<char>, secret: Seq<char>) -> Result<
    AuthClaimsView,
    Seq<char>,
> {
    match read_members(token, secret, claim_names()) {
        Ok(members) => match claims_of(members) {
            Some(claims) => Ok(claims),
            None => Err(invalid_token()),
        },
        Err(words) => Err(words),
    }
}

/// The token that the secret signs for the claims, if it is one that opens
/// again: a token in compact form that the secret opens to the same claims.
pub open spec fn sealed_claims(claims: AuthClaimsView, secret: Seq<char>) -> Option<Seq<char>> {
    if claims.exp <= i64::MAX {
        match signed_form(members_of(claims), secret) {
            Some(token) => if has_compact_form(token) && opened_claims(token, secret) == Ok::<
                AuthClaimsView,
                Seq<char>,
            >(claims) {
                Some(token)
            } else {
                None
            },
            None => None,
        }
    } else {
        None
    }
}

/// The claims of the token that a user is handed at `now`: the email
/// address, an expiry one day on, and whether the user is an administrator.
pub open spec fn claims_for(user: User, now: int) -> AuthClaimsView {
    AuthClaimsView { sub: user.email@, exp: now + TOKEN_SECONDS, is_admin: user.is_admin }
}

/// What signing in comes to once the password has matched: the token for
/// the claims, or the words for the failure to make it. A token is made
/// where the expiry is a count of seconds and the signing goes well.
pub open spec fn signed_in(user: User, now: int, secret: Seq<char>) -> Result<
    Seq<char>,
    Seq<char>,
> {
    if 0 <= now + TOKEN_SECONDS <= usize::MAX && now + TOKEN_SECONDS <= i64::MAX {
        match sealed_claims(claims_for(user, now), secret) {
            Some(token) => Ok(token),
            None => Err("JWT encoding error: token could not be signed"@),
        }
    } else {
        Err("JWT encoding error: expiry out of range"@)
    }
}

/// What signing in at `now` comes to: the reason for a refusal, or what
/// the making of the token comes to.
pub open spec fn authenticated(
    user: Result<Option<User>, Seq<char>>,
    password: Seq<char>,
    now: int,
    secret: Seq<char>,
) -> Result<Seq<char>, Seq<char>> {
    match refusal(user, password) {
        Some(reason) => Err(reason),
        None => signed_in(user->Ok_0->0, now, secret),
    }
}

/// What becomes of what the secret made of a token, once it is held
/// against the time: the claims, or the words for what is wrong, with
/// `Invalid token: ` before them. A token that expired is still good for a
/// minute.
pub open spec fn held(opened: Result<AuthClaimsView, Seq<char>>, now: int) -> Result<
    AuthClaimsView,
    Seq<char>,
> {
    match opened {
        Ok(claims) => if claims.exp + LEEWAY_SECONDS < now {
            Err("Invalid token: ExpiredSignature"@)
        } else {
            Ok(claims)
        },
        Err(words) => Err("Invalid token: "@ + words),
    }
}

/// What holding a token against the secret and the time comes to.
pub open spec fn validated(token: Seq<char>, secret: Seq<char>, now: int) -> Result<
    AuthClaimsView,
    Seq<char>,
> {
    held(opened_claims(token, secret), now)
}

/// A result with text on both sides, by its views.
pub open spec fn words_view(made: Result<String, String>) -> Result<Seq<char>, Seq<char>> {
    match made {
        Ok(text) => Ok(text@),
        Err(text) => Err(text@),
    }
}

/// A result with claims, by its views.
pub open spec fn claims_view(checked: Result<AuthClaims, String>) -> Result<
    AuthClaimsView,
    Seq<char>,
> {
    match checked {
        Ok(claims) => Ok(claims@),
        Err(words) => Err(words@),
    }
}

/// Opens a token with the secret: its claims, or the words for what is
/// wrong.
pub fn open_claims(token: &str, secret: &str) -> (opened: Result<AuthClaims, String>)
    ensures
        claims_view(opened) == opened_claims(token@, secret@),
{
    let mut names: Vec<String> = Vec::new();
    names.push("sub".to_owned());
    names.push("exp".to_owned());
    names.push("is_admin".to_owned());
    assert(name_views(names@) =~= claim_names());
    match open_members(token, secret, &names) {
        Ok(members) => {
            let mut found = members;
            let ghost all = member_views(found@);
            let is_admin = found.pop();
            let exp = found.pop();
            let sub = found.pop();
            match (sub, exp, is_admin) {
                (
                    Some(Member::Text(sub)),
                    Some(Member::Number(exp)),
                    Some(Member::Flag(is_admin)),
                ) => {
                    assert(all[0] == MemberView::Text(sub@));
                    assert(all[1] == MemberView::Number(exp as int));
                    assert(all[2] == MemberView::Flag(is_admin));
                    if 0 <= exp && exp as u64 <= usize::MAX as u64 {
                        Ok(AuthClaims { sub, exp: exp as usize, is_admin })
                    } else {
                        Err("InvalidToken".to_owned())
                    }
                },
                _ => {
                    assert(all[0] == sub->0@);
                    assert(all[1] == exp->0@);
                    assert(all[2] == is_admin->0@);
                    Err("InvalidToken".to_owned())
                },
            }
        },
        Err(words) => Err(words),
    }
}

/// Signs the claims with the secret and opens the token again: a token
/// that does not give the claims back is withheld, and so is one whose
/// expiry is beyond what a token can carry.
pub fn seal_claims(claims: &AuthClaims, secret: &str) -> (token: Option<String>)
    ensures
        match token {
            Some(text) => sealed_claims(claims@, secret@) == Some(text@),
            None => sealed_claims(claims@, secret@) is None,
        },
{
    if claims.exp as u64 > i64::MAX as u64 {
        return None;
    }
    let mut members: Vec<(String, Member)> = Vec::new();
    members.push(("sub".to_owned(), Member::Text(claims.sub.clone())));
    members.push(("exp".to_owned(), Member::Number(claims.exp as i64)));
    members.push(("is_admin".to_owned(), Member::Flag(claims.is_admin)));
    assert(named_views(members@) =~= members_of(claims@));
    match sign_members(&members, secret) {
        Some(text) => {
            let opened = is_compact(text.as_str()) && match open_claims(text.as_str(), secret) {
                Ok(read) => read.sub == claims.sub && read.exp == claims.exp && read.is_admin
                    == claims.is_admin,
                Err(_) => false,
            };
            if opened {
                Some(text)
            } else {
                None
            }
        },
        None => None,
    }
}

/// Holds what the secret made of a token against the time.
pub fn hold_claims(opened: Result<AuthClaims, String>, now: i64) -> (checked: Result<
    AuthClaims,
    String,
>)
    ensures
        claims_view(checked) == held(claims_view(opened), now as int),
{
    match opened {
        Ok(claims) => {
            if (claims.exp as i128) + (LEEWAY_SECONDS as i128) < now as i128 {
                Err("Invalid token: ExpiredSignature".to_owned())
            } else {
                Ok(claims)
            }
        },
        Err(words) => {
            let mut reason: String = "Invalid token: ".to_owned();
            reason.append(words.as_str());
            Err(reason)
        },
    }
}

/// The service that signs users in and checks their tokens.
#[derive(Debug)]
pub struct AuthService {
    jwt_secret: String,
}

impl AuthService {
    /// The secret of the service.
    pub closed spec fn secret(self) -> Seq<char> {
        self.jwt_secret@
    }

    /// A service that signs with `jwt_secret`.
    pub fn new(jwt_secret: String) -> (service: Self)
        ensures
            service.secret() == jwt_secret@,
    {
        Self { jwt_secret }
    }

    /// Signs somebody in at `now`. `user` is what the search for the email
    /// address came to.
    pub fn authenticate_at(
        &self,
        user: Result<Option<&User>, &str>,
        password: &str,
        now: i64,
    ) -> (made: Result<String, String>)
        ensures
            words_view(made) == authenticated(found(user), password@, now as int, self.secret()),
    {
        if let Some(reason) = refuse(user, password) {
            return Err(reason);
        }
        let record: &User = match user {
            Ok(Some(record)) => record,
            _ => {
                return Err("Invalid email or password".to_owned());
            },
        };
        let end: i128 = now as i128 + TOKEN_SECONDS as i128;
        if end < 0 || end > i64::MAX as i128 || end > usize::MAX as i128 {
            return Err("JWT encoding error: expiry out of range".to_owned());
        }
        let claims = AuthClaims {
            sub: record.email.clone(),
            exp: end as usize,
            is_admin: record.is_admin,
        };
        match seal_claims(&claims, self.jwt_secret.as_str()) {
            Some(token) => Ok(token),
            None => Err("JWT encoding error: token could not be signed".to_owned()),
        }
    }

    /// Signs somebody in now.
    pub fn authenticate(&self, user: Result<Option<&User>, &str>, password: &str) -> (made: Result<
        String,
        String,
    >)
        ensures
            exists|now: int|
                i64::MIN <= now <= i64::MAX && words_view(made) == #[trigger] authenticated(
                    found(user),
                    password@,
                    now,
                    self.secret(),
                ),
    {
        let now = read_clock().seconds;
        let made = self.authenticate_at(user, password, now);
        assert(words_view(made) == authenticated(
            found(user),
            password@,
            now as int,
            self.secret(),
        ));
        made
    }

    /// Holds a token against the secret and the time.
    pub fn validate_token_at(&self, token: &str, now: i64) -> (checked: Result<
        AuthClaims,
        String,
    >)
        ensures
            claims_view(checked) == validated(token@, self.secret(), now as int),
    {
        hold_claims(open_claims(token, self.jwt_secret.as_str()), now)
    }

    /// Holds a token against the secret, now.
    pub fn validate_token(&self, token: &str) -> (checked: Result<AuthClaims, String>)
        ensures
            exists|now: int|
                i64::MIN <= now <= i64::MAX && claims_view(checked) == #[trigger] validated(
                    token@,
                    self.secret(),
                    now,
                ),
    {
        let now = read_clock().seconds;
        let checked = self.validate_token_at(token, now);
        assert(claims_view(checked) == validated(token@, self.secret(), now as int));
        checked
    }

    /// Answers a login at `now`: the request is held against what the
    /// search for its email address came to, and the outcome is put into
    /// words.
    pub fn login_at(
        &self,
        request: &LoginRequest,
        user: Result<Option<&User>, &str>,
        now: i64,
    ) -> (response: LoginResponse)
        ensures
            response@ == login_answer(
                authenticated(found(user), request.password@, now as int, self.secret()),
            ),
    {
        login(self.authenticate_at(user, request.password.as_str(), now))
    }

    /// Answers a login now.
    pub fn login(&self, request: &LoginRequest, user: Result<Option<&User>, &str>) -> (response:
        LoginResponse)
        ensures
            exists|now: int|
                i64::MIN <= now <= i64::MAX && response@ == login_answer(
                    #[trigger] authenticated(
                        found(user),
                        request.password@,
                        now,
                        self.secret(),
                    ),
                ),
    {
        let now = read_clock().seconds;
        let response = self.login_at(request, user, now);
        assert(response@ == login_answer(
            authenticated(found(user), request.password@, now as int, self.secret()),
        ));
        response
    }
}

/// A token that a user was handed is accepted until a minute after its
/// day is over, and gives back the email address and the rank.
pub proof fn law_sign_in_is_accepted(
    user: User,
    now: int,
    secret: Seq<char>,
    token: Seq<char>,
    later: int,
)
    requires
        signed_in(user, now, secret) == Ok::<Seq<char>, Seq<char>>(token),
        later <= now + TOKEN_SECONDS + LEEWAY_SECONDS,
    ensures
        validated(token, secret, later) == Ok::<AuthClaimsView, Seq<char>>(
            claims_for(user, now),
        ),
{
}

} // verus!
