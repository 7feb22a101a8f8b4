//! The tokens of the admin pages. One key signs; the key before it is still
//! accepted, so that a token outlives one change of key. After a day the
//! next token brings a new key with it.
//!
//! A token names its issuer and its audience, the user by number and by
//! name, and the seconds at which it was made and at which it expires.

use crate::signing::{
    classify, failure_of, has_compact_form, member_views, name_views, named_views, open_members,
    read_members, sign_members, signed_form, DecodeFailure, Member, MemberView,
};
use crate::text::{has_prefix, number_text, push_number, starts_with, str_view, to_chars};
use crate::token::is_compact;
use vstd::prelude::*;
use vstd::string::*;

verus! {

/// The secret that signs where none is set.
pub const DEFAULT_SECRET: &'static str = "default_secret_key";

/// The issuer that tokens name where none is set.
pub const DEFAULT_ISSUER: &'static str = "lmoadll_admin";

/// The audience that tokens name where none is set.
pub const DEFAULT_AUDIENCE: &'static str = "lmoadll_client";

/// Seconds after which the key that signs is changed: one day.
pub const ROTATION_SECONDS: i64 = 86_400;

/// Seconds for which a token is still accepted after its expiry.
pub const LEEWAY_SECONDS: i64 = 60;

/// Why a token was turned down, or could not be made.
#[derive(Clone, Copy, Debug, PartialEq, Eq, Structural)]
pub enum JwtError {
    /// The text is no token, or its claims are not those of these tokens.
    InvalidToken,
    /// Neither key made this token.
    InvalidSignature,
    /// The token has expired, and the minute of grace is over.
    ExpiredSignature,
    /// The token is of another issuer.
    InvalidIssuer,
    /// The token is for another audience.
    InvalidAudience,
    /// The claims could not be written out or signed.
    Signing,
}

/// What a token says.
#[derive(Debug)]
pub struct JwtPayload {
    /// Who issued the token.
    pub iss: String,
    /// Whom it is for.
    pub aud: String,
    /// The number of the user.
    pub uid: u32,
    /// The name of the user.
    pub name: String,
    /// The second at which it expires.
    pub exp: i64,
    /// The second at which it was made.
    pub iat: i64,
}

/// A payload as the contracts see it.
pub struct PayloadView {
    pub iss: Seq<char>,
    pub aud: Seq<char>,
    pub uid: int,
    pub name: Seq<char>,
    pub exp: int,
    pub iat: int,
}

impl View for JwtPayload {
    type V = PayloadView;

    open spec fn view(&self) -> PayloadView {
        PayloadView {
            iss: self.iss@,
            aud: self.aud@,
            uid: self.uid as int,
            name: self.name@,
            exp: self.exp as int,
            iat: self.iat as int,
        }
    }
}

/// The two keys and the second of the last change, as the contracts see
/// them.
pub struct RotationView {
    pub current_key: Seq<char>,
    pub previous_key: Seq<char>,
    pub rotation_time: int,
}

impl RotationView {
    /// Whether the key is due for a change at `now`: more than a day has
    /// gone by since the last one.
    pub open spec fn is_due(self, now: int) -> bool {
        now - self.rotation_time > ROTATION_SECONDS
    }

    /// The keys after a change at `now`: the key that signed steps back, and
    /// the key that signs from now on is the old one with the time behind.
    pub open spec fn rotated(self, now: int) -> RotationView {
        RotationView {
            current_key: self.current_key + seq!['_'] + number_text(now),
            previous_key: self.current_key,
            rotation_time: now,
        }
    }

    /// The keys with which a token is made at `now`.
    pub open spec fn at_issue(self, now: int) -> RotationView {
        if self.is_due(now) {
            self.rotated(now)
        } else {
            self
        }
    }
}

/// The key that signs, and the key that signed before it.
#[derive(Debug)]
pub struct KeyRotation {
    current_key: String,
    previous_key: String,
    rotation_time: i64,
}

impl View for KeyRotation {
    type V = RotationView;

    closed spec fn view(&self) -> RotationView {
        RotationView {
            current_key: self.current_key@,
            previous_key: self.previous_key@,
            rotation_time: self.rotation_time as int,
        }
    }
}

impl KeyRotation {
    /// Starts with `secret`, or with the default where there is none, as
    /// both keys.
    pub fn new(secret: Option<String>, now: i64) -> (rotation: Self)
        ensures
            rotation@.current_key == match secret {
                Some(text) => text@,
                None => DEFAULT_SECRET@,
            },
            rotation@.previous_key == rotation@.current_key,
            rotation@.rotation_time == now,
    {
        let current_key: String = match secret {
            Some(text) => text,
            None => DEFAULT_SECRET.to_owned(),
        };
        Self { previous_key: current_key.clone(), current_key, rotation_time: now }
    }

    /// Changes the key at `now`.
    pub fn rotate(&mut self, now: i64)
        ensures
            final(self)@ == old(self)@.rotated(now as int),
    {
        proof {
            reveal_strlit("_");
        }
        let mut next: String = self.current_key.clone();
        next.append("_");
        assert("_"@ =~= seq!['_']);
        push_number(&mut next, now);
        self.previous_key = self.current_key.clone();
        self.current_key = next;
        self.rotation_time = now;
    }

    /// Whether the key is due for a change at `now`.
    pub fn should_rotate(&self, now: i64) -> (due: bool)
        ensures
            due == self@.is_due(now as int),
    {
        now as i128 - self.rotation_time as i128 > ROTATION_SECONDS as i128
    }

    /// The key that signs, and the key before it.
    pub fn get_keys(&self) -> (keys: (String, String))
        ensures
            keys.0@ == self@.current_key,
            keys.1@ == self@.previous_key,
    {
        (self.current_key.clone(), self.previous_key.clone())
    }
}

/// The names of the six members of a payload.
pub open spec fn payload_names() -> Seq<Seq<char>> {
    seq!["iss"@, "aud"@, "uid"@, "name"@, "exp"@, "iat"@]
}

/// A payload, member by member.
pub open spec fn members_of(payload: PayloadView) -> Seq<(Seq<char>, MemberView)> {
    seq![
        ("iss"@, MemberView::Text(payload.iss)),
        ("aud"@, MemberView::Text(payload.aud)),
        ("uid"@, MemberView::Number(payload.uid)),
        ("name"@, MemberView::Text(payload.name)),
        ("exp"@, MemberView::Number(payload.exp)),
        ("iat"@, MemberView::Number(payload.iat)),
    ]
}

/// The payload that six members make; none where a member is missing or of
/// another kind, or the number of the user is none.
pub open spec fn payload_of(members: Seq<MemberView>) -> Option<PayloadView> {
    match (members[0], members[1], members[2], members[3], members[4], members[5]) {
        (
            MemberView::Text(iss),
            MemberView::Text(aud),
            MemberView::Number(uid),
            MemberView::Text(name),
            MemberView::Number(exp),
            MemberView::Number(iat),
        ) => if 0 <= uid <= u32::MAX {
            Some(PayloadView { iss, aud, uid, name, exp, iat })
        } else {
            None
        },
        _ => None,
    }
}

/// What one key makes of a token: its payload, or why it gives none.
pub open spec fn opened_payload(token: Seq<char>, key: Seq<char>) -> Result<
    PayloadView,
    DecodeFailure,
> {
    match read_members(token, key, payload_names()) {
        Ok(members) => match payload_of(members) {
            Some(payload) => Ok(payload),
            None => Err(DecodeFailure::Malformed),
        },
        Err(words) => Err(failure_of(words)),
    }
}

/// The token that `key` signs for `payload`, if it is one that opens again:
/// a token in compact form that `key` opens to the same payload.
pub open spec fn sealed_payload(payload: PayloadView, key: Seq<char>) -> Option<Seq<char>> {
    match signed_form(members_of(payload), key) {
        Some(token) => if has_compact_form(token) && opened_payload(token, key) == Ok::<
            PayloadView,
            DecodeFailure,
        >(payload) {
            Some(token)
        } else {
            None
        },
        None => None,
    }
}

/// Opens a token with one key: its payload, or why the key gives none.
pub fn open_payload(token: &str, key: &str) -> (opened: Result<JwtPayload, DecodeFailure>)
    ensures
        match opened {
            Ok(payload) => opened_payload(token@, key@) == Ok::<PayloadView, DecodeFailure>(
                payload@,
            ),
            Err(failure) => opened_payload(token@, key@) == Err::<PayloadView, DecodeFailure>(
                failure,
            ),
        },
{
    let mut names: Vec<String> = Vec::new();
    names.push("iss".to_owned());
    names.push("aud".to_owned());
    names.push("uid".to_owned());
    names.push("name".to_owned());
    names.push("exp".to_owned());
    names.push("iat".to_owned());
    assert(name_views(names@) =~= payload_names());
    match open_members(token, key, &names) {
        Ok(members) => {
            let mut found = members;
            let ghost all = member_views(found@);
            let iat = found.pop();
            let exp = found.pop();
            let name = found.pop();
            let uid = found.pop();
            let aud = found.pop();
            let iss = found.pop();
            match (iss, aud, uid, name, exp, iat) {
                (
                    Some(Member::Text(iss)),
                    Some(Member::Text(aud)),
                    Some(Member::Number(uid)),
                    Some(Member::Text(name)),
                    Some(Member::Number(exp)),
                    Some(Member::Number(iat)),
                ) => {
                    assert(all[0] == MemberView::Text(iss@));
                    assert(all[1] == MemberView::Text(aud@));
                    assert(all[2] == MemberView::Number(uid as int));
                    assert(all[3] == MemberView::Text(name@));
                    assert(all[4] == MemberView::Number(exp as int));
                    assert(all[5] == MemberView::Number(iat as int));
                    if 0 <= uid && uid <= u32::MAX as i64 {
                        Ok(JwtPayload { iss, aud, uid: uid as u32, name, exp, iat })
                    } else {
                        Err(DecodeFailure::Malformed)
                    }
                },
                _ => {
                    assert(all[0] == iss->0@);
                    assert(all[1] == aud->0@);
                    assert(all[2] == uid->0@);
                    assert(all[3] == name->0@);
                    assert(all[4] == exp->0@);
                    assert(all[5] == iat->0@);
                    Err(DecodeFailure::Malformed)
                },
            }
        },
        Err(words) => Err(classify(&words)),
    }
}

/// Whether two payloads say the same.
fn same_payload(left: &JwtPayload, right: &JwtPayload) -> (same: bool)
    ensures
        same == (left@ == right@),
{
    left.iss == right.iss && left.aud == right.aud && left.uid == right.uid && left.name
        == right.name && left.exp == right.exp && left.iat == right.iat
}

/// Signs the payload with `key` and opens the token again with the same
/// key: a token that does not give the payload back is withheld.
pub fn seal_payload(payload: &JwtPayload, key: &str) -> (token: Option<String>)
    ensures
        match token {
            Some(text) => sealed_payload(payload@, key@) == Some(text@),
            None => sealed_payload(payload@, key@) is None,
        },
{
    let mut members: Vec<(String, Member)> = Vec::new();
    members.push(("iss".to_owned(), Member::Text(payload.iss.clone())));
    members.push(("aud".to_owned(), Member::Text(payload.aud.clone())));
    members.push(("uid".to_owned(), Member::Number(payload.uid as i64)));
    members.push(("name".to_owned(), Member::Text(payload.name.clone())));
    members.push(("exp".to_owned(), Member::Number(payload.exp)));
    members.push(("iat".to_owned(), Member::Number(payload.iat)));
    assert(named_views(members@) =~= members_of(payload@));
    match sign_members(&members, key) {
        Some(text) => {
            let opened = is_compact(text.as_str()) && match open_payload(text.as_str(), key) {
                Ok(read) => same_payload(&read, payload),
                Err(_) => false,
            };
            if opened {
                Some(text)
            } else {
                None
            }
        },
        None => None,
    }
}

/// The payload of a token for a user, made at `now` and good for
/// `expire_minutes`.
pub open spec fn payload_for(
    uid: int,
    name: Seq<char>,
    expire_minutes: int,
    issuer: Seq<char>,
    audience: Seq<char>,
    now: int,
) -> PayloadView {
    PayloadView { iss: issuer, aud: audience, uid, name, exp: now + 60 * expire_minutes, iat: now }
}

/// What making a token with `key` comes to: the token, or a failure to sign
/// where the expiry cannot be written as a number of seconds or the token
/// cannot be made.
pub open spec fn generated(
    uid: int,
    name: Seq<char>,
    expire_minutes: int,
    issuer: Seq<char>,
    audience: Seq<char>,
    now: int,
    key: Seq<char>,
) -> Result<Seq<char>, JwtError> {
    let payload = payload_for(uid, name, expire_minutes, issuer, audience, now);
    if i64::MIN <= payload.exp <= i64::MAX {
        match sealed_payload(payload, key) {
            Some(token) => Ok(token),
            None => Err(JwtError::Signing),
        }
    } else {
        Err(JwtError::Signing)
    }
}

/// A result with a text, by its view.
pub open spec fn token_view(made: Result<String, JwtError>) -> Result<Seq<char>, JwtError> {
    match made {
        Ok(text) => Ok(text@),
        Err(error) => Err(error),
    }
}

/// Makes a token for a user at `now`, good for `expire_minutes`. Where the
/// key is due for a change, it is changed first.
pub fn generate_token(
    rotation: &mut KeyRotation,
    uid: u32,
    name: &str,
    expire_minutes: i64,
    issuer: &str,
    audience: &str,
    now: i64,
) -> (made: Result<String, JwtError>)
    ensures
        final(rotation)@ == old(rotation)@.at_issue(now as int),
        token_view(made) == generated(
            uid as int,
            name@,
            expire_minutes as int,
            issuer@,
            audience@,
            now as int,
            final(rotation)@.current_key,
        ),
{
    if rotation.should_rotate(now) {
        rotation.rotate(now);
    }
    let end: i128 = now as i128 + 60 * (expire_minutes as i128);
    if end < i64::MIN as i128 || end > i64::MAX as i128 {
        return Err(JwtError::Signing);
    }
    let payload = JwtPayload {
        iss: issuer.to_owned(),
        aud: audience.to_owned(),
        uid,
        name: name.to_owned(),
        exp: end as i64,
        iat: now,
    };
    match seal_payload(&payload, rotation.current_key.as_str()) {
        Some(token) => Ok(token),
        None => Err(JwtError::Signing),
    }
}

/// What becomes of what a key made of a token, once it is held against an
/// issuer, an audience and the time: the payload, or the first thing that
/// is wrong. A token that expired is still good for a minute; an expiry
/// before 1970 is none. The expiry comes before the issuer and the
/// audience, and all three are held here, against the time that is given.
pub open spec fn held(
    opened: Result<PayloadView, DecodeFailure>,
    issuer: Seq<char>,
    audience: Seq<char>,
    now: int,
) -> Result<PayloadView, JwtError> {
    match opened {
        Err(DecodeFailure::BadSignature) => Err(JwtError::InvalidSignature),
        Err(DecodeFailure::Malformed) => Err(JwtError::InvalidToken),
        Ok(payload) => if payload.exp < 0 {
            Err(JwtError::InvalidToken)
        } else if payload.exp + LEEWAY_SECONDS < now {
            Err(JwtError::ExpiredSignature)
        } else if payload.iss != issuer {
            Err(JwtError::InvalidIssuer)
        } else if payload.aud != audience {
            Err(JwtError::InvalidAudience)
        } else {
            Ok(payload)
        },
    }
}

/// What one key makes of a token that is held against an issuer, an
/// audience and the time.
pub open spec fn attempt(
    token: Seq<char>,
    key: Seq<char>,
    issuer: Seq<char>,
    audience: Seq<char>,
    now: int,
) -> Result<PayloadView, JwtError> {
    held(opened_payload(token, key), issuer, audience, now)
}

/// What checking a token comes to: what the key that signs makes of it, or
/// else what the key before makes of it.
pub open spec fn validated(
    token: Seq<char>,
    keys: RotationView,
    issuer: Seq<char>,
    audience: Seq<char>,
    now: int,
) -> Result<PayloadView, JwtError> {
    match attempt(token, keys.current_key, issuer, audience, now) {
        Ok(payload) => Ok(payload),
        Err(_) => attempt(token, keys.previous_key, issuer, audience, now),
    }
}

/// A result with a payload, by its view.
pub open spec fn payload_view(checked: Result<JwtPayload, JwtError>) -> Result<
    PayloadView,
    JwtError,
> {
    match checked {
        Ok(payload) => Ok(payload@),
        Err(error) => Err(error),
    }
}

/// What a key made of a token, by its view.
pub open spec fn opened_view(opened: Result<JwtPayload, DecodeFailure>) -> Result<
    PayloadView,
    DecodeFailure,
> {
    match opened {
        Ok(payload) => Ok(payload@),
        Err(failure) => Err(failure),
    }
}

/// Holds what a key made of a token against an issuer, an audience and the
/// time.
pub fn hold_payload(
    opened: Result<JwtPayload, DecodeFailure>,
    issuer: &str,
    audience: &str,
    now: i64,
) -> (checked: Result<JwtPayload, JwtError>)
    ensures
        payload_view(checked) == held(opened_view(opened), issuer@, audience@, now as int),
{
    match opened {
        Err(DecodeFailure::BadSignature) => Err(JwtError::InvalidSignature),
        Err(DecodeFailure::Malformed) => Err(JwtError::InvalidToken),
        Ok(payload) => {
            if payload.exp < 0 {
                Err(JwtError::InvalidToken)
            } else if (payload.exp as i128) + (LEEWAY_SECONDS as i128) < now as i128 {
                Err(JwtError::ExpiredSignature)
            } else if !(payload.iss == issuer.to_owned()) {
                Err(JwtError::InvalidIssuer)
            } else if !(payload.aud == audience.to_owned()) {
                Err(JwtError::InvalidAudience)
            } else {
                Ok(payload)
            }
        },
    }
}

/// Holds a token against one key, an issuer, an audience and the time.
pub fn attempt_with_key(token: &str, key: &str, issuer: &str, audience: &str, now: i64) -> (checked:
    Result<JwtPayload, JwtError>)
    ensures
        payload_view(checked) == attempt(token@, key@, issuer@, audience@, now as int),
{
    hold_payload(open_payload(token, key), issuer, audience, now)
}

/// Checks a token at `now`: first with the key that signs, then with the
/// key before it.
pub fn validate_token(
    rotation: &KeyRotation,
    token: &str,
    issuer: &str,
    audience: &str,
    now: i64,
) -> (checked: Result<JwtPayload, JwtError>)
    ensures
        payload_view(checked) == validated(token@, rotation@, issuer@, audience@, now as int),
{
    match attempt_with_key(token, rotation.current_key.as_str(), issuer, audience, now) {
        Ok(payload) => Ok(payload),
        Err(_) => attempt_with_key(token, rotation.previous_key.as_str(), issuer, audience, now),
    }
}

/// A token that was made with the key that signs is accepted, for its
/// issuer and its audience, until a minute after its expiry.
pub proof fn law_token_is_accepted(
    uid: int,
    name: Seq<char>,
    expire_minutes: int,
    issuer: Seq<char>,
    audience: Seq<char>,
    now: int,
    keys: RotationView,
    token: Seq<char>,
    later: int,
)
    requires
        generated(uid, name, expire_minutes, issuer, audience, now, keys.current_key) == Ok::<
            Seq<char>,
            JwtError,
        >(token),
        0 <= now + 60 * expire_minutes,
        later <= now + 60 * expire_minutes + LEEWAY_SECONDS,
    ensures
        validated(token, keys, issuer, audience, later) == Ok::<PayloadView, JwtError>(
            payload_for(uid, name, expire_minutes, issuer, audience, now),
        ),
{
}

/// A token outlives one change of key: made with the key that signed
/// before the change, it is accepted after it, as long as the new key does
/// not claim it.
pub proof fn law_token_outlives_one_rotation(
    uid: int,
    name: Seq<char>,
    expire_minutes: int,
    issuer: Seq<char>,
    audience: Seq<char>,
    now: int,
    keys: RotationView,
    token: Seq<char>,
    changed: int,
    later: int,
)
    requires
        generated(uid, name, expire_minutes, issuer, audience, now, keys.current_key) == Ok::<
            Seq<char>,
            JwtError,
        >(token),
        0 <= now + 60 * expire_minutes,
        later <= now + 60 * expire_minutes + LEEWAY_SECONDS,
        attempt(token, keys.rotated(changed).current_key, issuer, audience, later) is Err,
    ensures
        validated(token, keys.rotated(changed), issuer, audience, later) == Ok::<
            PayloadView,
            JwtError,
        >(payload_for(uid, name, expire_minutes, issuer, audience, now)),
{
}

/// The user behind a request.
#[derive(Debug)]
pub struct AuthenticatedUser {
    pub uid: u32,
    pub name: String,
}

/// Why a request has no user behind it.
#[derive(Clone, Copy, Debug, PartialEq, Eq, Structural)]
pub enum Unauthorized {
    /// The request brought a token, and the token is no good.
    InvalidToken,
    /// The request brought no token.
    AuthenticationRequired,
}

impl Unauthorized {
    /// The words for the refusal.
    pub open spec fn words(self) -> Seq<char> {
        match self {
            Unauthorized::InvalidToken => "Token无效"@,
            Unauthorized::AuthenticationRequired => "需要认证"@,
        }
    }

    /// The words for the refusal.
    pub fn message(&self) -> (text: &'static str)
        ensures
            text@ == self.words(),
    {
        match self {
            Unauthorized::InvalidToken => "Token无效",
            Unauthorized::AuthenticationRequired => "需要认证",
        }
    }
}

/// The user behind a request, given its authorization header as far as it
/// is text: the user whom the bearer token names, a refusal of the token
/// where it is no good, and a call for a token where the header brings none.
pub open spec fn requester(
    header: Option<Seq<char>>,
    keys: RotationView,
    issuer: Seq<char>,
    audience: Seq<char>,
    now: int,
) -> Result<(int, Seq<char>), Unauthorized> {
    match header {
        Some(text) => if has_prefix(text, "Bearer "@) {
            match validated(text.skip(7), keys, issuer, audience, now) {
                Ok(payload) => Ok((payload.uid, payload.name)),
                Err(_) => Err(Unauthorized::InvalidToken),
            }
        } else {
            Err(Unauthorized::AuthenticationRequired)
        },
        None => Err(Unauthorized::AuthenticationRequired),
    }
}

impl AuthenticatedUser {
    /// Finds the user behind a request at `now`.
    pub fn from_request(
        rotation: &KeyRotation,
        header: Option<&str>,
        issuer: &str,
        audience: &str,
        now: i64,
    ) -> (found: Result<AuthenticatedUser, Unauthorized>)
        ensures
            match found {
                Ok(user) => requester(
                    str_view(header),
                    rotation@,
                    issuer@,
                    audience@,
                    now as int,
                ) == Ok::<(int, Seq<char>), Unauthorized>((user.uid as int, user.name@)),
                Err(refusal) => requester(
                    str_view(header),
                    rotation@,
                    issuer@,
                    audience@,
                    now as int,
                ) == Err::<(int, Seq<char>), Unauthorized>(refusal),
            },
    {
        match header {
            Some(text) => {
                let chars = to_chars(text);
                let word = to_chars("Bearer ");
                proof {
                    reveal_strlit("Bearer ");
                }
                if starts_with(&chars, &word) {
                    let token = text.substring_char(7, chars.len());
                    assert(token@ == text@.skip(7));
                    match validate_token(rotation, token, issuer, audience, now) {
                        Ok(payload) => Ok(
                            AuthenticatedUser { uid: payload.uid, name: payload.name },
                        ),
                        Err(_) => Err(Unauthorized::InvalidToken),
                    }
                } else {
                    Err(Unauthorized::AuthenticationRequired)
                }
            },
            None => Err(Unauthorized::AuthenticationRequired),
        }
    }
}

} // verus!
