//! Writing claims out as a signed token and reading them back.
//!
//! The work is done by `jsonwebtoken`: HMAC-SHA256 over the compact form
//! `header.claims.signature`, the claims being a JSON object whose members
//! are texts, numbers and flags. Verus reads none of that. The contracts of
//! the two calls give their results a name each, which is to say that
//! signing and opening are functions of their arguments, and claim no more.
//! That a token opens again to the claims it was made of is not assumed: the
//! service opens every token that it signs before it hands the token out.

use crate::claims::{Claims, ClaimsView};
use jsonwebtoken::{decode, encode, Algorithm, DecodingKey, EncodingKey, Header, Validation};
use serde_json::Value;
use vstd::prelude::*;

verus! {

/// Why one key does not open a token.
#[derive(Clone, Copy, Debug, PartialEq, Eq, Structural)]
pub enum DecodeFailure {
    /// The token is well formed and was signed with another key.
    BadSignature,
    /// The token, its header or its claims cannot be read.
    Malformed,
}

/// One member of the claims of a token.
#[derive(Debug)]
pub enum Member {
    /// A text.
    Text(String),
    /// A number that fits in 64 bits with a sign.
    Number(i64),
    /// True or false.
    Flag(bool),
    /// Something else: another number, a list, an object, nothing.
    Other,
    /// The claims have no member of the name.
    Missing,
}

/// A member as the contracts see it.
pub enum MemberView {
    Text(Seq<char>),
    Number(int),
    Flag(bool),
    Other,
    Missing,
}

impl View for Member {
    type V = MemberView;

    open spec fn view(&self) -> MemberView {
        match self {
            Member::Text(text) => MemberView::Text(text@),
            Member::Number(number) => MemberView::Number(*number as int),
            Member::Flag(flag) => MemberView::Flag(*flag),
            Member::Other => MemberView::Other,
            Member::Missing => MemberView::Missing,
        }
    }
}

/// The error of `jsonwebtoken`. Nothing is read from it.
#[verifier::external_type_specification]
#[verifier::external_body]
pub struct ExJwtError(jsonwebtoken::errors::Error);

/// Members by name, as the contracts see them.
pub open spec fn named_views(members: Seq<(String, Member)>) -> Seq<(Seq<char>, MemberView)> {
    members.map_values(|member: (String, Member)| (member.0@, member.1@))
}

/// Members, as the contracts see them.
pub open spec fn member_views(members: Seq<Member>) -> Seq<MemberView> {
    members.map_values(|member: Member| member@)
}

/// Names, as the contracts see them.
pub open spec fn name_views(names: Seq<String>) -> Seq<Seq<char>> {
    names.map_values(|name: String| name@)
}

/// The token that `jsonwebtoken::encode` makes, under HS256 and with this
/// secret, of the JSON object with these members; `None` where it reports
/// an error.
pub uninterp spec fn signed_form(members: Seq<(Seq<char>, MemberView)>, key: Seq<char>) -> Option<
    Seq<char>,
>;

/// What `jsonwebtoken::decode` makes of this token with this secret under
/// HS256, with its checks of the claims switched off: for each name that is
/// asked for, the member of that name; or the words of its error.
pub uninterp spec fn decoded_members(
    token: Seq<char>,
    key: Seq<char>,
    names: Seq<Seq<char>>,
) -> Result<Seq<MemberView>, Seq<char>>;

/// `jsonwebtoken::encode` with an HS256 header, the members gathered into a
/// JSON object and `key` as the secret. Taken on trust: that the result
/// depends on the members and the secret alone. That the call succeeds is
/// not claimed, nor anything of the token it returns.
#[verifier::external_body]
fn encode_members(members: &Vec<(String, Member)>, key: &str) -> (signed: Result<
    String,
    jsonwebtoken::errors::Error,
>)
    ensures
        match signed {
            Ok(token) => signed_form(named_views(members@), key@) == Some(token@),
            Err(_) => signed_form(named_views(members@), key@) is None,
        },
{
    let value = |member: &Member| match member {
        Member::Text(text) => Value::from(text.as_str()),
        Member::Number(number) => Value::from(*number),
        Member::Flag(flag) => Value::from(*flag),
        Member::Other | Member::Missing => Value::Null,
    };
    let named = members.iter().map(|(name, member)| (name.clone(), value(member)));
    let object: serde_json::Map<String, Value> = named.collect();
    encode(&Header::new(Algorithm::HS256), &object, &EncodingKey::from_secret(key.as_bytes()))
}

/// `jsonwebtoken::decode` under HS256 with `key` as the secret, the claims
/// read as a JSON value, and for each name the member of that name taken
/// out by its kind. An error is handed on in its own words.
///
/// The checks that `decode` makes of the claims are switched off: it would
/// hold the expiry against the machine's clock, and the library holds it
/// against the time it is given. Taken on trust: that the result depends
/// on the token, the secret and the names alone.
#[verifier::external_body]
fn decode_members(token: &str, key: &str, names: &Vec<String>) -> (decoded: Result<
    Vec<Member>,
    String,
>)
    ensures
        match decoded {
            Ok(members) => decoded_members(token@, key@, name_views(names@)) == Ok::<
                Seq<MemberView>,
                Seq<char>,
            >(member_views(members@)),
            Err(words) => decoded_members(token@, key@, name_views(names@)) == Err::<
                Seq<MemberView>,
                Seq<char>,
            >(words@),
        },
{
    let mut rules = Validation::new(Algorithm::HS256);
    rules.validate_exp = false;
    rules.validate_aud = false;
    rules.required_spec_claims.clear();
    let data = decode::<Value>(token, &DecodingKey::from_secret(key.as_bytes()), &rules)
        .map_err(|error| error.to_string())?;
    let member = |name: &String| match data.claims.get(name) {
        Some(Value::String(text)) => Member::Text(text.clone()),
        Some(Value::Number(number)) => number.as_i64().map_or(Member::Other, Member::Number),
        Some(Value::Bool(flag)) => Member::Flag(*flag),
        Some(_) => Member::Other,
        None => Member::Missing,
    };
    Ok(names.iter().map(member).collect())
}

/// Signs a JSON object with these members: the token, or nothing where the
/// signing fails.
pub fn sign_members(members: &Vec<(String, Member)>, key: &str) -> (token: Option<String>)
    ensures
        match token {
            Some(text) => signed_form(named_views(members@), key@) == Some(text@),
            None => signed_form(named_views(members@), key@) is None,
        },
{
    match encode_members(members, key) {
        Ok(text) => Some(text),
        Err(_) => None,
    }
}

/// The words with which a wrong signature is reported.
pub open spec fn wrong_signature() -> Seq<char> {
    "InvalidSignature"@
}

/// The words for a token whose members are not as many as were asked for.
pub open spec fn invalid_token() -> Seq<char> {
    "InvalidToken"@
}

/// What one key reads from a token: for each name the member of that name,
/// as many as were asked for; or the words of the failure.
pub open spec fn read_members(token: Seq<char>, key: Seq<char>, names: Seq<Seq<char>>) -> Result<
    Seq<MemberView>,
    Seq<char>,
> {
    match decoded_members(token, key, names) {
        Ok(members) => if members.len() == names.len() {
            Ok(members)
        } else {
            Err(invalid_token())
        },
        Err(words) => Err(words),
    }
}

/// Opens a token with one key and reads the members of these names.
pub fn open_members(token: &str, key: &str, names: &Vec<String>) -> (read: Result<
    Vec<Member>,
    String,
>)
    ensures
        match read {
            Ok(members) => read_members(token@, key@, name_views(names@)) == Ok::<
                Seq<MemberView>,
                Seq<char>,
            >(member_views(members@)),
            Err(words) => read_members(token@, key@, name_views(names@)) == Err::<
                Seq<MemberView>,
                Seq<char>,
            >(words@),
        },
{
    match decode_members(token, key, names) {
        Ok(members) => {
            if members.len() == names.len() {
                Ok(members)
            } else {
                Err("InvalidToken".to_owned())
            }
        },
        Err(words) => Err(words),
    }
}

/// Which of the two failures the words of an error stand for: a wrong
/// signature where they say so, an unreadable token for every other error.
pub open spec fn failure_of(words: Seq<char>) -> DecodeFailure {
    if words == wrong_signature() {
        DecodeFailure::BadSignature
    } else {
        DecodeFailure::Malformed
    }
}

/// Which of the two failures the words of an error stand for.
pub fn classify(words: &String) -> (failure: DecodeFailure)
    ensures
        failure == failure_of(words@),
{
    if *words == "InvalidSignature".to_owned() {
        DecodeFailure::BadSignature
    } else {
        DecodeFailure::Malformed
    }
}

/// The names of the five members among the claims of a token.
pub open spec fn claim_names() -> Seq<Seq<char>> {
    seq!["sub"@, "token_type"@, "created_at"@, "exp"@, "iat"@]
}

/// The claims, member by member.
pub open spec fn members_of(claims: ClaimsView) -> Seq<(Seq<char>, MemberView)> {
    seq![
        ("sub"@, MemberView::Text(claims.sub)),
        ("token_type"@, MemberView::Text(claims.token_type)),
        ("created_at"@, MemberView::Text(claims.created_at)),
        ("exp"@, MemberView::Number(claims.exp)),
        ("iat"@, MemberView::Number(claims.iat)),
    ]
}

/// The token that signing these claims with this secret gives; `None`
/// where the signing fails.
pub open spec fn signed_claims(claims: ClaimsView, key: Seq<char>) -> Option<Seq<char>> {
    signed_form(members_of(claims), key)
}

/// The claims that five members make; none where a member is missing or of
/// another kind.
pub open spec fn claims_of(members: Seq<MemberView>) -> Option<ClaimsView> {
    match (members[0], members[1], members[2], members[3], members[4]) {
        (
            MemberView::Text(sub),
            MemberView::Text(token_type),
            MemberView::Text(created_at),
            MemberView::Number(exp),
            MemberView::Number(iat),
        ) => Some(ClaimsView { sub, token_type, created_at, exp, iat }),
        _ => None,
    }
}

/// What one key makes of a token: its claims, or why it gives none. A token
/// whose claims lack one of the five members, or hold it in another kind,
/// counts as unreadable.
pub open spec fn opened_form(token: Seq<char>, key: Seq<char>) -> Result<
    ClaimsView,
    DecodeFailure,
> {
    match read_members(token, key, claim_names()) {
        Ok(members) => match claims_of(members) {
            Some(claims) => Ok(claims),
            None => Err(DecodeFailure::Malformed),
        },
        Err(words) => Err(failure_of(words)),
    }
}

/// How many full stops the text holds.
pub open spec fn separators(token: Seq<char>) -> nat {
    token.filter(|c: char| c == '.').len()
}

/// A token in compact form has three parts with a full stop between them.
pub open spec fn has_compact_form(token: Seq<char>) -> bool {
    separators(token) == 2
}

/// `token` is in compact form and opens with `key` to `claims`.
pub open spec fn opens_as(token: Seq<char>, key: Seq<char>, claims: ClaimsView) -> bool {
    &&& has_compact_form(token)
    &&& opened_form(token, key) == Ok::<ClaimsView, DecodeFailure>(claims)
}

/// Signs the claims with `key`: the token, or nothing where the signing
/// fails. The token is not yet known to open again; `seal` sees to that.
pub(crate) fn encode_token(claims: &Claims, key: &str) -> (token: Option<String>)
    ensures
        match token {
            Some(text) => signed_claims(claims@, key@) == Some(text@),
            None => signed_claims(claims@, key@) is None,
        },
{
    let mut members: Vec<(String, Member)> = Vec::new();
    members.push(("sub".to_owned(), Member::Text(claims.sub.clone())));
    members.push(("token_type".to_owned(), Member::Text(claims.token_type.clone())));
    members.push(("created_at".to_owned(), Member::Text(claims.created_at.clone())));
    members.push(("exp".to_owned(), Member::Number(claims.exp)));
    members.push(("iat".to_owned(), Member::Number(claims.iat)));
    assert(named_views(members@) =~= members_of(claims@));
    sign_members(&members, key)
}

/// Opens a token with one key: its claims, or why the key gives none.
pub fn decode_token(token: &str, key: &str) -> (opened: Result<Claims, DecodeFailure>)
    ensures
        match opened {
            Ok(claims) => opened_form(token@, key@) == Ok::<ClaimsView, DecodeFailure>(claims@),
            Err(failure) => opened_form(token@, key@) == Err::<ClaimsView, DecodeFailure>(failure),
        },
{
    let mut names: Vec<String> = Vec::new();
    names.push("sub".to_owned());
    names.push("token_type".to_owned());
    names.push("created_at".to_owned());
    names.push("exp".to_owned());
    names.push("iat".to_owned());
    assert(name_views(names@) =~= claim_names());
    match open_members(token, key, &names) {
        Ok(members) => {
            let mut found = members;
            let ghost all = member_views(found@);
            let iat = found.pop();
            let exp = found.pop();
            let created_at = found.pop();
            let token_type = found.pop();
            let sub = found.pop();
            match (sub, token_type, created_at, exp, iat) {
                (
                    Some(Member::Text(sub)),
                    Some(Member::Text(token_type)),
                    Some(Member::Text(created_at)),
                    Some(Member::Number(exp)),
                    Some(Member::Number(iat)),
                ) => {
                    assert(all[0] == MemberView::Text(sub@));
                    assert(all[1] == MemberView::Text(token_type@));
                    assert(all[2] == MemberView::Text(created_at@));
                    assert(all[3] == MemberView::Number(exp as int));
                    assert(all[4] == MemberView::Number(iat as int));
                    Ok(Claims { sub, token_type, created_at, exp, iat })
                },
                _ => {
                    assert(all[0] == sub->0@);
                    assert(all[1] == token_type->0@);
                    assert(all[2] == created_at->0@);
                    assert(all[3] == exp->0@);
                    assert(all[4] == iat->0@);
                    Err(DecodeFailure::Malformed)
                },
            }
        },
        Err(words) => Err(classify(&words)),
    }
}

} // verus!
