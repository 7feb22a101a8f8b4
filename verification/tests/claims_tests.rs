use token_keyring::claims::{create_claims, TokenError, TokenKind};

fn pair(name: &str, value: &str) -> (String, String) {
    (name.to_string(), value.to_string())
}

#[test]
fn access_claims_expire_after_fifteen_minutes() {
    let claims = create_claims("alice", "access", 15, &Vec::new(), 1_000, "then").unwrap();
    assert_eq!(claims.sub, "alice");
    assert_eq!(claims.token_type, "access");
    assert_eq!(claims.created_at, "then");
    assert_eq!(claims.iat, 1_000);
    assert_eq!(claims.exp, 1_900);
}

#[test]
fn refresh_claims_expire_after_seven_days() {
    let minutes = TokenKind::Refresh.lifetime_minutes();
    assert_eq!(minutes, 10_080);
    let claims = create_claims("alice", "refresh", minutes, &Vec::new(), 1_000, "then").unwrap();
    assert_eq!(claims.exp, 1_000 + 604_800);
}

#[test]
fn the_kinds_have_their_words_and_lifetimes() {
    assert_eq!(TokenKind::Access.as_str(), "access");
    assert_eq!(TokenKind::Refresh.as_str(), "refresh");
    assert_eq!(TokenKind::Access.lifetime_minutes(), 15);
}

#[test]
fn extra_claims_may_set_the_subject_and_the_written_time() {
    let extras = vec![pair("sub", "bob"), pair("created_at", "long ago")];
    let claims = create_claims("alice", "access", 15, &extras, 1_000, "then").unwrap();
    assert_eq!(claims.sub, "bob");
    assert_eq!(claims.created_at, "long ago");
}

#[test]
fn extra_claims_never_set_the_kind_or_the_times() {
    let extras = vec![pair("token_type", "refresh"), pair("exp", "5"), pair("iat", "7")];
    let claims = create_claims("alice", "access", 15, &extras, 1_000, "then").unwrap();
    assert_eq!(claims.token_type, "access");
    assert_eq!(claims.exp, 1_900);
    assert_eq!(claims.iat, 1_000);
}

#[test]
fn unknown_extra_claims_are_dropped() {
    let extras = vec![pair("test_field", "test_value"), pair("Sub", "bob")];
    let claims = create_claims("alice", "access", 15, &extras, 1_000, "then").unwrap();
    assert_eq!(claims.sub, "alice");
    assert_eq!(claims.created_at, "then");
}

#[test]
fn of_two_entries_with_one_name_the_later_counts() {
    let extras = vec![pair("sub", "bob"), pair("other", "x"), pair("sub", "carol")];
    let claims = create_claims("alice", "access", 15, &extras, 1_000, "then").unwrap();
    assert_eq!(claims.sub, "carol");
}

#[test]
fn an_expiry_beyond_the_range_is_a_signing_failure() {
    let made = create_claims("alice", "access", 15, &Vec::new(), i64::MAX - 899, "then");
    assert_eq!(made.err(), Some(TokenError::InternalSigningFailure));
    let made = create_claims("alice", "access", 15, &Vec::new(), i64::MAX - 900, "then").unwrap();
    assert_eq!(made.exp, i64::MAX);
}

#[test]
fn a_negative_lifetime_is_computed_as_written() {
    let claims = create_claims("alice", "access", -1, &Vec::new(), 1_000, "then").unwrap();
    assert_eq!(claims.exp, 940);
    let made = create_claims("alice", "access", -1, &Vec::new(), i64::MIN, "then");
    assert_eq!(made.err(), Some(TokenError::InternalSigningFailure));
}

#[test]
fn every_error_has_its_sentence() {
    assert_eq!(TokenError::MalformedToken.message(), "Malformed token");
    assert_eq!(TokenError::InvalidSignature.message(), "Invalid signature");
    assert_eq!(TokenError::Expired.message(), "Token expired");
    assert_eq!(TokenError::WrongTokenType.message(), "Invalid token type");
    assert_eq!(TokenError::InvalidIdentity.message(), "Invalid user identity");
    assert_eq!(TokenError::InternalSigningFailure.message(), "Token could not be signed");
}
