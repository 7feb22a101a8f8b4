use token_keyring::auth::{seal_claims, AuthClaims, AuthService};
use token_keyring::handlers::{
    admin_required, admin_required_at, check, check_at, login, AuthorizationHeader,
};
use token_keyring::install::{
    check_config, generate_sqlite_path, save_config, test_connection, SaveConfigRequest,
    TestConnectionRequest,
};
use token_keyring::pool::KeyPool;
use token_keyring::response::{
    custom_error, custom_error_response, error_response, success_response, system_error,
    ResponseErrorType, ResponseHandler,
};
use token_keyring::timed::create_tokens_at;
use token_keyring::types::refreshed_response;

const NOW: i64 = 1_700_000_000;

#[test]
fn a_success_travels_under_two_hundred() {
    let answer = success_response(Some(5u32), "done");
    assert_eq!(answer.code, 200);
    assert_eq!(answer.message, "done");
    assert_eq!(answer.data, Some(5));
    assert_eq!(answer.status_code(), 200);
}

#[test]
fn a_known_error_keeps_the_status_and_changes_the_code() {
    let answer = custom_error_response::<u32>("no such user", None);
    assert_eq!(answer.code, 233);
    assert_eq!(answer.message, "no such user");
    assert_eq!(answer.data, None);
    assert_eq!(answer.status_code(), 200);
}

#[test]
fn an_unknown_error_changes_both() {
    let answer = error_response("broken", Some("detail".to_string()));
    assert_eq!(answer.code, 500);
    assert_eq!(answer.message, "broken");
    assert_eq!(answer.data, Some("detail".to_string()));
    assert_eq!(answer.status_code(), 500);
}

#[test]
fn the_handler_gives_the_same_three_answers() {
    assert_eq!(ResponseHandler::success(Some(1u8), "a").code, 200);
    assert_eq!(ResponseHandler::custom_error::<u8>("b", None).code, 233);
    assert_eq!(ResponseHandler::error::<u8>("c", None).code, 500);
    assert_eq!(ResponseHandler::error::<u8>("c", None).message, "c");
}

#[test]
fn an_error_becomes_the_answer_of_its_kind() {
    let known = custom_error("taken");
    assert_eq!(known.error_type, ResponseErrorType::CustomError);
    assert_eq!(known.to_text(), "taken");
    assert_eq!(known.status_code(), 200);
    let answer = known.error_response();
    assert_eq!(answer.code, 233);
    assert_eq!(answer.message, "taken");
    assert_eq!(answer.data, None);

    let unknown = system_error("disk");
    assert_eq!(unknown.error_type, ResponseErrorType::SystemError);
    assert_eq!(unknown.status_code(), 500);
    let answer = unknown.error_response();
    assert_eq!(answer.code, 500);
    assert_eq!(answer.message, "disk");
}

#[test]
fn a_login_that_earned_a_token_hands_it_over() {
    let response = login(Ok("token".to_string()));
    assert!(response.success);
    assert_eq!(response.message, "Login successful");
    assert_eq!(response.access_token, Some("token".to_string()));
    assert_eq!(response.refresh_token, None);
}

#[test]
fn a_login_that_failed_says_why() {
    let response = login(Err("Invalid email or password".to_string()));
    assert!(!response.success);
    assert_eq!(response.message, "Authentication failed: Invalid email or password");
    assert_eq!(response.access_token, None);
    assert_eq!(response.refresh_token, None);
}

fn admin_token(service: &AuthService, now: i64) -> String {
    let claims = AuthClaims { sub: "alice@example.org".to_string(), exp: (now + 86_400) as usize, is_admin: true };
    let token = seal_claims(&claims, "secret").unwrap();
    assert!(service.validate_token_at(&token, now).is_ok());
    token
}

#[test]
fn a_check_answers_by_the_header() {
    let service = AuthService::new("secret".to_string());
    let token = admin_token(&service, NOW);

    let response = check_at(&service, &AuthorizationHeader::Absent, NOW);
    assert!(!response.success);
    assert_eq!(response.message, "No authorization header");

    let response = check_at(&service, &AuthorizationHeader::NotText, NOW);
    assert!(!response.success);
    assert_eq!(response.message, "Invalid authorization header");

    let response = check_at(&service, &AuthorizationHeader::Text(token.clone()), NOW);
    assert!(!response.success);
    assert_eq!(response.message, "Invalid token format");

    let good = AuthorizationHeader::Text(format!("Bearer {}", token));
    let response = check_at(&service, &good, NOW);
    assert!(response.success);
    assert_eq!(response.message, "Token is valid");
    assert_eq!(response.access_token, None);
    assert_eq!(response.refresh_token, None);

    let response = check_at(&service, &good, NOW + 86_400 + 61);
    assert!(!response.success);
    assert_eq!(response.message, "Invalid or expired token");

    let other = AuthService::new("another".to_string());
    let response = check_at(&other, &good, NOW);
    assert!(!response.success);
    assert_eq!(response.message, "Invalid or expired token");
}

#[test]
fn a_token_of_the_pool_is_no_token_of_the_admin_pages() {
    let mut pool = KeyPool::new(7, 8, NOW);
    let key = pool.current_key(NOW);
    let pair = create_tokens_at(&mut pool, "alice", None, NOW, "then").unwrap();
    let service = AuthService::new(key);
    let header = AuthorizationHeader::Text(format!("Bearer {}", pair.lmoadll_user));
    assert_eq!(check_at(&service, &header, NOW).message, "Invalid or expired token");
}

#[test]
fn a_guarded_page_opens_to_a_good_token_only() {
    let service = AuthService::new("secret".to_string());
    let token = admin_token(&service, NOW);
    let good = AuthorizationHeader::Text(format!("Bearer {}", token));
    assert_eq!(admin_required_at(&service, &good, NOW), Ok(()));
    assert_eq!(admin_required_at(&service, &good, NOW + 86_400 + 61), Err(401));
    assert_eq!(admin_required_at(&service, &AuthorizationHeader::Absent, NOW), Err(401));
    assert_eq!(admin_required_at(&service, &AuthorizationHeader::NotText, NOW), Err(401));
    let bare = AuthorizationHeader::Text(token.clone());
    assert_eq!(admin_required_at(&service, &bare, NOW), Err(401));
}

#[test]
fn the_service_answers_a_check_now() {
    let service = AuthService::new("secret".to_string());
    let claims = AuthClaims { sub: "alice".to_string(), exp: usize::MAX / 4, is_admin: false };
    let token = seal_claims(&claims, "secret").unwrap();
    let good = AuthorizationHeader::Text(format!("Bearer {}", token));
    let response = check(&service, &good);
    assert!(response.success);
    assert_eq!(response.message, "Token is valid");
    assert_eq!(admin_required(&service, &good), Ok(()));
    assert_eq!(admin_required(&service, &AuthorizationHeader::Absent), Err(401));
}

#[test]
fn the_answer_to_a_refresh_carries_the_new_token() {
    let response = refreshed_response("token".to_string(), "Token refreshed");
    assert_eq!(response.code, 200);
    assert_eq!(response.message, "Token refreshed");
    assert_eq!(response.data.access_token, "token");
}

#[test]
fn the_installer_says_yes_to_everything() {
    let response = check_config();
    assert!(response.success);
    assert_eq!(response.message, "Configuration check passed");
    let response = generate_sqlite_path();
    assert!(response.success);
    assert_eq!(response.path, "data/lmoadll_bl.db");
    let text = |value: &str| value.to_string();
    let response = test_connection(&TestConnectionRequest {
        db_type: text("mysql"),
        host: text("nowhere"),
        port: text("0"),
        username: text("u"),
        password: text("p"),
        database: text("d"),
    });
    assert!(response.success);
    assert_eq!(response.message, "Connection test successful");
    let response = save_config(&SaveConfigRequest {
        db_type: text("sqlite"),
        host: text(""),
        port: text(""),
        username: text(""),
        password: text(""),
        database: text("data/lmoadll_bl.db"),
    });
    assert!(response.success);
    assert_eq!(response.message, "Configuration saved successfully");
}
