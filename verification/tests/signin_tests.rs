use argon2::password_hash::Salt;
use argon2::{Argon2, PasswordHasher};
use token_keyring::auth::{
    hold_claims, open_claims, refuse, seal_claims, AuthClaims, AuthService, User,
};
use token_keyring::config::{debug_enabled, Config};
use token_keyring::cookies::{
    create_clear_refresh_token_cookie, create_refresh_token_cookie, SameSite,
};
use token_keyring::handlers::LoginRequest;
use token_keyring::signing::{open_members, sign_members, Member};

const NOW: i64 = 1_700_000_000;
const DAY: i64 = 86_400;

fn hash_of(password: &str) -> String {
    let salt = Salt::from_b64("c29tZXNhbHQxMjM0NTY3OA").unwrap();
    Argon2::default().hash_password(password.as_bytes(), salt).unwrap().to_string()
}

fn user_with(password: &str, is_admin: bool) -> User {
    User {
        id: 1,
        username: "alice".to_string(),
        email: "alice@example.org".to_string(),
        password_hash: hash_of(password),
        is_admin,
        created_at: NOW,
        updated_at: NOW,
    }
}

fn service() -> AuthService {
    AuthService::new("your-secret-key-change-in-production".to_string())
}

fn object(members: &[(&str, serde_json::Value)]) -> serde_json::Value {
    let mut map = serde_json::Map::new();
    for (name, value) in members {
        map.insert(name.to_string(), value.clone());
    }
    serde_json::Value::Object(map)
}

fn sign(claims: &serde_json::Value, key: &str) -> String {
    jsonwebtoken::encode(
        &jsonwebtoken::Header::default(),
        claims,
        &jsonwebtoken::EncodingKey::from_secret(key.as_bytes()),
    )
    .unwrap()
}

#[test]
fn the_right_password_is_not_refused() {
    let user = user_with("correct horse", false);
    assert_eq!(refuse(Ok(Some(&user)), "correct horse"), None);
}

#[test]
fn a_wrong_password_and_an_unknown_user_are_refused_in_the_same_words() {
    let user = user_with("correct horse", false);
    let wrong = refuse(Ok(Some(&user)), "battery staple");
    assert_eq!(wrong, Some("Invalid email or password".to_string()));
    assert_eq!(refuse(Ok(Some(&user)), ""), wrong);
    assert_eq!(refuse(Ok(None), "correct horse"), wrong);
}

#[test]
fn a_search_that_failed_is_reported() {
    let reason = refuse(Err("no such table: users"), "correct horse");
    assert_eq!(reason, Some("Database error: no such table: users".to_string()));
}

#[test]
fn a_stored_text_that_is_no_hash_is_reported() {
    let mut user = user_with("correct horse", false);
    user.password_hash = "plain text".to_string();
    let reason = refuse(Ok(Some(&user)), "plain text").unwrap();
    assert_eq!(reason, "Password hash error: password hash string missing field");
    user.password_hash = String::new();
    let reason = refuse(Ok(Some(&user)), "").unwrap();
    assert!(reason.starts_with("Password hash error: "));
}

#[test]
fn signing_in_earns_a_token_for_a_day_under_the_secret_of_the_service() {
    let user = user_with("correct horse", true);
    let token = service().authenticate_at(Ok(Some(&user)), "correct horse", NOW).unwrap();
    let expected = object(&[
        ("sub", serde_json::Value::from("alice@example.org")),
        ("exp", serde_json::Value::from(NOW + DAY)),
        ("is_admin", serde_json::Value::from(true)),
    ]);
    assert_eq!(token, sign(&expected, "your-secret-key-change-in-production"));
    let claims = service().validate_token_at(&token, NOW).unwrap();
    assert_eq!(claims.sub, "alice@example.org");
    assert_eq!(claims.exp, (NOW + DAY) as usize);
    assert!(claims.is_admin);
}

#[test]
fn the_rank_of_the_user_goes_into_the_token() {
    let user = user_with("correct horse", false);
    let token = service().authenticate_at(Ok(Some(&user)), "correct horse", NOW).unwrap();
    assert!(!service().validate_token_at(&token, NOW).unwrap().is_admin);
}

#[test]
fn nobody_is_signed_in_without_the_right_password() {
    let user = user_with("correct horse", false);
    let refused = service().authenticate_at(Ok(Some(&user)), "wrong", NOW);
    assert_eq!(refused, Err("Invalid email or password".to_string()));
    let refused = service().authenticate_at(Ok(None), "correct horse", NOW);
    assert_eq!(refused, Err("Invalid email or password".to_string()));
    let refused = service().authenticate_at(Err("locked"), "correct horse", NOW);
    assert_eq!(refused, Err("Database error: locked".to_string()));
}

#[test]
fn signing_in_fails_in_words_where_the_expiry_is_out_of_range() {
    let user = user_with("correct horse", false);
    let made = service().authenticate_at(Ok(Some(&user)), "correct horse", i64::MAX);
    assert_eq!(made, Err("JWT encoding error: expiry out of range".to_string()));
    let made = service().authenticate_at(Ok(Some(&user)), "correct horse", -DAY - 1);
    assert_eq!(made, Err("JWT encoding error: expiry out of range".to_string()));
    assert!(service().authenticate_at(Ok(Some(&user)), "correct horse", -DAY).is_ok());
}

#[test]
fn a_token_is_good_for_a_day_and_a_minute() {
    let user = user_with("correct horse", false);
    let token = service().authenticate_at(Ok(Some(&user)), "correct horse", NOW).unwrap();
    assert!(service().validate_token_at(&token, NOW + DAY).is_ok());
    assert!(service().validate_token_at(&token, NOW + DAY + 60).is_ok());
    let late = service().validate_token_at(&token, NOW + DAY + 61);
    assert_eq!(late.err(), Some("Invalid token: ExpiredSignature".to_string()));
}

#[test]
fn a_token_of_another_secret_or_no_token_is_turned_down_in_the_words_of_the_error() {
    let user = user_with("correct horse", false);
    let token = service().authenticate_at(Ok(Some(&user)), "correct horse", NOW).unwrap();
    let other = AuthService::new("another".to_string());
    let checked = other.validate_token_at(&token, NOW);
    assert_eq!(checked.err(), Some("Invalid token: InvalidSignature".to_string()));
    let checked = service().validate_token_at("not-a-token", NOW);
    assert_eq!(checked.err(), Some("Invalid token: InvalidToken".to_string()));
    let partial = object(&[("sub", serde_json::Value::from("alice"))]);
    let checked = service().validate_token_at(&sign(&partial, "another"), NOW);
    assert_eq!(checked.err(), Some("Invalid token: InvalidSignature".to_string()));
    let checked = other.validate_token_at(&sign(&partial, "another"), NOW);
    assert_eq!(checked.err(), Some("Invalid token: InvalidToken".to_string()));
}

#[test]
fn what_the_secret_made_of_a_token_is_held_against_the_time() {
    let claims = |exp: usize| AuthClaims { sub: "a".to_string(), exp, is_admin: false };
    assert_eq!(hold_claims(Ok(claims(100)), 160).unwrap().exp, 100);
    assert_eq!(hold_claims(Ok(claims(100)), 161).err(), Some("Invalid token: ExpiredSignature".to_string()));
    assert_eq!(hold_claims(Err("Base64 error".to_string()), 0).err(), Some("Invalid token: Base64 error".to_string()));
}

#[test]
fn sealing_keeps_the_three_members() {
    let claims = AuthClaims { sub: "名前".to_string(), exp: 77, is_admin: true };
    let token = seal_claims(&claims, "k").unwrap();
    let read = open_claims(&token, "k").unwrap();
    assert_eq!(read.sub, "名前");
    assert_eq!(read.exp, 77);
    assert!(read.is_admin);
    assert_eq!(open_claims(&token, "other").err(), Some("InvalidSignature".to_string()));
    assert_eq!(seal_claims(&AuthClaims { sub: "a".to_string(), exp: usize::MAX, is_admin: true }, "k"), None);
}

#[test]
fn members_are_read_by_their_kind() {
    let members = vec![
        ("t".to_string(), Member::Text("x".to_string())),
        ("n".to_string(), Member::Number(-5)),
        ("f".to_string(), Member::Flag(true)),
        ("o".to_string(), Member::Other),
    ];
    let token = sign_members(&members, "k").unwrap();
    let names: Vec<String> = ["t", "n", "f", "o", "absent"].iter().map(|n| n.to_string()).collect();
    let read = open_members(&token, "k", &names).unwrap();
    assert!(matches!(&read[0], Member::Text(text) if text == "x"));
    assert!(matches!(read[1], Member::Number(-5)));
    assert!(matches!(read[2], Member::Flag(true)));
    assert!(matches!(read[3], Member::Other));
    assert!(matches!(read[4], Member::Missing));
    let big = object(&[("n", serde_json::Value::from(u64::MAX)), ("l", serde_json::Value::Array(Vec::new()))]);
    let names: Vec<String> = ["n", "l"].iter().map(|n| n.to_string()).collect();
    let read = open_members(&sign(&big, "k"), "k", &names).unwrap();
    assert!(matches!(read[0], Member::Other));
    assert!(matches!(read[1], Member::Other));
    assert_eq!(open_members(&token, "wrong", &names).err(), Some("InvalidSignature".to_string()));
    assert_eq!(open_members("a.b", "k", &names).err(), Some("InvalidToken".to_string()));
}

#[test]
fn the_service_signs_in_and_accepts_the_token_now() {
    let user = user_with("correct horse", true);
    let token = service().authenticate(Ok(Some(&user)), "correct horse").unwrap();
    let claims = service().validate_token(&token).unwrap();
    assert_eq!(claims.sub, "alice@example.org");
    assert!(claims.is_admin);
    assert_eq!(service().authenticate(Ok(Some(&user)), "nope"), Err("Invalid email or password".to_string()));
}

#[test]
fn a_login_is_answered_in_words() {
    let user = user_with("correct horse", false);
    let request = LoginRequest {
        email: "alice@example.org".to_string(),
        password: "correct horse".to_string(),
    };
    let response = service().login_at(&request, Ok(Some(&user)), NOW);
    assert!(response.success);
    assert_eq!(response.message, "Login successful");
    assert_eq!(response.refresh_token, None);
    let token = response.access_token.unwrap();
    assert_eq!(service().validate_token_at(&token, NOW).unwrap().sub, "alice@example.org");

    let response = service().login_at(&request, Ok(None), NOW);
    assert!(!response.success);
    assert_eq!(response.message, "Authentication failed: Invalid email or password");
    assert_eq!(response.access_token, None);
    let response = service().login(&request, Err("down"));
    assert_eq!(response.message, "Authentication failed: Database error: down");
}

#[test]
fn settings_default_where_the_environment_is_silent() {
    let config = Config::from_env(None, None, None, None).unwrap();
    assert!(config.database_url.starts_with("sqlite:"));
    assert_eq!(config.jwt_secret, "your-secret-key-change-in-production");
    assert_eq!(config.server_host, "0.0.0.0");
    assert_eq!(config.server_port, 2326);
}

#[test]
fn settings_take_what_the_environment_gives() {
    let text = |value: &str| Some(value.to_string());
    let config = Config::from_env(text("sqlite::memory:"), text("s3cret"), text("127.0.0.1"), text("8080")).unwrap();
    assert_eq!(config.database_url, "sqlite::memory:");
    assert_eq!(config.jwt_secret, "s3cret");
    assert_eq!(config.server_host, "127.0.0.1");
    assert_eq!(config.server_port, 8080);
}

#[test]
fn a_port_has_to_be_a_number_that_fits() {
    let port = |value: &str| Config::from_env(None, None, None, Some(value.to_string())).map(|c| c.server_port);
    assert_eq!(port("0"), Ok(0));
    assert_eq!(port("65535"), Ok(65535));
    assert_eq!(port("+80"), Ok(80));
    assert_eq!(port("65536"), Err("Invalid port number: number too large to fit in target type".to_string()));
    assert_eq!(port(""), Err("Invalid port number: cannot parse integer from empty string".to_string()));
    assert_eq!(port("80a"), Err("Invalid port number: invalid digit found in string".to_string()));
    assert_eq!(port(" 80"), Err("Invalid port number: invalid digit found in string".to_string()));
    assert_eq!(port("-1"), Err("Invalid port number: invalid digit found in string".to_string()));
}

#[test]
fn debugging_is_switched_on_by_three_words() {
    for value in ["true", "True", "TRUE", "tRuE", "1", "t"] {
        assert!(debug_enabled(Some(value)));
    }
    for value in ["False", "false", "0", "T", "yes", "", " true", "11"] {
        assert!(!debug_enabled(Some(value)));
    }
    assert!(!debug_enabled(None));
}

#[test]
fn the_refresh_cookie_lives_seven_days_and_stays_with_the_site() {
    let cookie = create_refresh_token_cookie("token");
    assert_eq!(cookie.name, "refresh_token");
    assert_eq!(cookie.value, "token");
    assert!(cookie.http_only);
    assert!(!cookie.secure);
    assert_eq!(cookie.same_site, SameSite::Strict);
    assert_eq!(cookie.path, "/");
    assert_eq!(cookie.max_age_seconds, 604_800);
}

#[test]
fn the_clearing_cookie_has_no_value_and_no_time_to_live() {
    let cookie = create_clear_refresh_token_cookie();
    assert_eq!(cookie.name, "refresh_token");
    assert_eq!(cookie.value, "");
    assert!(cookie.http_only);
    assert!(!cookie.secure);
    assert_eq!(cookie.same_site, SameSite::Strict);
    assert_eq!(cookie.path, "/");
    assert_eq!(cookie.max_age_seconds, 0);
}
