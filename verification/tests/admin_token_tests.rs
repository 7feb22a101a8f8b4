use token_keyring::jwt::{
    attempt_with_key, generate_token, open_payload, seal_payload, validate_token,
    AuthenticatedUser, JwtError, JwtPayload, KeyRotation, Unauthorized,
};
use token_keyring::signing::DecodeFailure;
use token_keyring::text::push_number;

const NOW: i64 = 1_700_000_000;
const ISS: &str = "lmoadll_admin";
const AUD: &str = "lmoadll_client";

fn started() -> KeyRotation {
    KeyRotation::new(Some("secret".to_string()), NOW)
}

#[test]
fn numbers_are_written_in_decimal() {
    let write = |n: i64| {
        let mut text = String::from("n=");
        push_number(&mut text, n);
        text
    };
    assert_eq!(write(0), "n=0");
    assert_eq!(write(7), "n=7");
    assert_eq!(write(10), "n=10");
    assert_eq!(write(1_700_000_000), "n=1700000000");
    assert_eq!(write(-1), "n=-1");
    assert_eq!(write(-120), "n=-120");
    assert_eq!(write(i64::MAX), "n=9223372036854775807");
    assert_eq!(write(i64::MIN), "n=-9223372036854775808");
}

#[test]
fn a_rotation_starts_with_one_secret_as_both_keys() {
    let rotation = started();
    assert_eq!(rotation.get_keys(), ("secret".to_string(), "secret".to_string()));
    let rotation = KeyRotation::new(None, NOW);
    assert_eq!(
        rotation.get_keys(),
        ("default_secret_key".to_string(), "default_secret_key".to_string())
    );
}

#[test]
fn a_change_of_key_appends_the_time_and_keeps_the_old_key() {
    let mut rotation = started();
    rotation.rotate(NOW + 5);
    assert_eq!(rotation.get_keys(), ("secret_1700000005".to_string(), "secret".to_string()));
    rotation.rotate(-3);
    assert_eq!(
        rotation.get_keys(),
        ("secret_1700000005_-3".to_string(), "secret_1700000005".to_string())
    );
}

#[test]
fn a_key_is_due_after_more_than_a_day() {
    let rotation = started();
    assert!(!rotation.should_rotate(NOW));
    assert!(!rotation.should_rotate(NOW + 86_400));
    assert!(rotation.should_rotate(NOW + 86_401));
    assert!(!rotation.should_rotate(NOW - 100_000));
    assert!(!KeyRotation::new(None, i64::MAX).should_rotate(i64::MIN));
    assert!(KeyRotation::new(None, i64::MIN).should_rotate(i64::MAX));
}

#[test]
fn a_token_names_the_user_and_is_accepted() {
    let mut rotation = started();
    let token = generate_token(&mut rotation, 42, "alice", 30, ISS, AUD, NOW).unwrap();
    assert_eq!(token.split('.').count(), 3);
    let payload = validate_token(&rotation, &token, ISS, AUD, NOW).unwrap();
    assert_eq!(payload.uid, 42);
    assert_eq!(payload.name, "alice");
    assert_eq!(payload.iss, ISS);
    assert_eq!(payload.aud, AUD);
    assert_eq!(payload.iat, NOW);
    assert_eq!(payload.exp, NOW + 1_800);
    assert_eq!(rotation.get_keys().0, "secret");
}

#[test]
fn making_a_token_changes_a_key_that_is_due() {
    let mut rotation = started();
    let at = NOW + 86_401;
    let token = generate_token(&mut rotation, 1, "alice", 30, ISS, AUD, at).unwrap();
    assert_eq!(rotation.get_keys(), ("secret_1700086401".to_string(), "secret".to_string()));
    assert!(attempt_with_key(&token, "secret_1700086401", ISS, AUD, at).is_ok());
    assert_eq!(
        attempt_with_key(&token, "secret", ISS, AUD, at).err(),
        Some(JwtError::InvalidSignature)
    );
}

#[test]
fn a_token_outlives_one_change_of_key_and_not_two() {
    let mut rotation = started();
    let token = generate_token(&mut rotation, 1, "alice", 30, ISS, AUD, NOW).unwrap();
    rotation.rotate(NOW + 1);
    assert_eq!(validate_token(&rotation, &token, ISS, AUD, NOW + 1).unwrap().name, "alice");
    rotation.rotate(NOW + 2);
    let late = validate_token(&rotation, &token, ISS, AUD, NOW + 2);
    assert_eq!(late.err(), Some(JwtError::InvalidSignature));
}

#[test]
fn a_token_is_good_for_a_minute_after_its_expiry() {
    let mut rotation = started();
    let token = generate_token(&mut rotation, 1, "alice", 1, ISS, AUD, NOW).unwrap();
    assert!(validate_token(&rotation, &token, ISS, AUD, NOW + 60).is_ok());
    assert!(validate_token(&rotation, &token, ISS, AUD, NOW + 120).is_ok());
    let late = validate_token(&rotation, &token, ISS, AUD, NOW + 121);
    assert_eq!(late.err(), Some(JwtError::ExpiredSignature));
}

#[test]
fn a_token_is_held_against_its_issuer_and_its_audience() {
    let mut rotation = started();
    let token = generate_token(&mut rotation, 1, "alice", 30, ISS, AUD, NOW).unwrap();
    let checked = validate_token(&rotation, &token, "another", AUD, NOW);
    assert_eq!(checked.err(), Some(JwtError::InvalidIssuer));
    let checked = validate_token(&rotation, &token, ISS, "another", NOW);
    assert_eq!(checked.err(), Some(JwtError::InvalidAudience));
    let checked = validate_token(&rotation, &token, "another", "another", NOW);
    assert_eq!(checked.err(), Some(JwtError::InvalidIssuer));
    let checked = validate_token(&rotation, &token, "another", AUD, NOW + 10_000);
    assert_eq!(checked.err(), Some(JwtError::ExpiredSignature));
}

#[test]
fn text_that_is_no_token_is_invalid() {
    let rotation = started();
    for text in ["", "not-a-token", "a.b.c"] {
        let checked = validate_token(&rotation, text, ISS, AUD, NOW);
        assert_eq!(checked.err(), Some(JwtError::InvalidToken));
    }
}

#[test]
fn a_token_of_the_other_service_is_no_admin_token() {
    let claims =
        token_keyring::claims::create_claims("alice", "access", 15, &Vec::new(), NOW, "t").unwrap();
    let token = token_keyring::token::seal(&claims, "secret").unwrap();
    let checked = validate_token(&started(), &token, ISS, AUD, NOW);
    assert_eq!(checked.err(), Some(JwtError::InvalidToken));
    assert_eq!(open_payload(&token, "secret").err(), Some(DecodeFailure::Malformed));
    assert_eq!(open_payload(&token, "other").err(), Some(DecodeFailure::BadSignature));
}

#[test]
fn an_expiry_before_the_epoch_or_beyond_the_range_is_refused() {
    let mut rotation = KeyRotation::new(None, -10_000);
    let token = generate_token(&mut rotation, 1, "alice", 1, ISS, AUD, -10_000).unwrap();
    let checked = validate_token(&rotation, &token, ISS, AUD, -10_000);
    assert_eq!(checked.err(), Some(JwtError::InvalidToken));
    let made = generate_token(&mut rotation, 1, "alice", 1, ISS, AUD, i64::MAX);
    assert_eq!(made.err(), Some(JwtError::Signing));
}

#[test]
fn sealing_keeps_every_member() {
    let payload = JwtPayload {
        iss: "i".to_string(),
        aud: "a".to_string(),
        uid: u32::MAX,
        name: "名前 \"x\"".to_string(),
        exp: 5,
        iat: -5,
    };
    let token = seal_payload(&payload, "k").unwrap();
    let read = open_payload(&token, "k").unwrap();
    assert_eq!(read.iss, "i");
    assert_eq!(read.aud, "a");
    assert_eq!(read.uid, u32::MAX);
    assert_eq!(read.name, "名前 \"x\"");
    assert_eq!(read.exp, 5);
    assert_eq!(read.iat, -5);
}

#[test]
fn the_user_behind_a_request_is_the_one_the_bearer_token_names() {
    let mut rotation = started();
    let token = generate_token(&mut rotation, 42, "alice", 30, ISS, AUD, NOW).unwrap();
    let header = format!("Bearer {}", token);
    let user = AuthenticatedUser::from_request(&rotation, Some(&header), ISS, AUD, NOW).unwrap();
    assert_eq!(user.uid, 42);
    assert_eq!(user.name, "alice");
}

#[test]
fn a_request_without_a_good_token_has_no_user() {
    let mut rotation = started();
    let token = generate_token(&mut rotation, 42, "alice", 30, ISS, AUD, NOW).unwrap();
    let refused = |header: Option<&str>, now: i64| {
        AuthenticatedUser::from_request(&rotation, header, ISS, AUD, now).err()
    };
    assert_eq!(refused(None, NOW), Some(Unauthorized::AuthenticationRequired));
    assert_eq!(refused(Some(&token), NOW), Some(Unauthorized::AuthenticationRequired));
    assert_eq!(refused(Some("Basic abc"), NOW), Some(Unauthorized::AuthenticationRequired));
    assert_eq!(refused(Some("Bearer abc"), NOW), Some(Unauthorized::InvalidToken));
    let header = format!("Bearer {}", token);
    assert_eq!(refused(Some(&header), NOW + 10_000), Some(Unauthorized::InvalidToken));
    assert_eq!(Unauthorized::InvalidToken.message(), "Token无效");
    assert_eq!(Unauthorized::AuthenticationRequired.message(), "需要认证");
}
