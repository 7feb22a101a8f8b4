use token_keyring::claims::{create_claims, Claims, TokenError, TokenKind};
use token_keyring::signing::DecodeFailure;
use token_keyring::manager::JwtKeyManager;
use token_keyring::pool::KeyPool;
use token_keyring::timed::{
    create_jwt_token_at, create_tokens_at, get_current_user_identity_at, refresh_token_at,
    validate_token_and_get_identity_at, verify_token_at,
};
use token_keyring::token::{
    check_token, create_tokens, extract_bearer_token, identity_with_keys, init_jwt_manager, judge,
    is_compact, issue_with_key, refresh_token, refresh_with_keys, seal,
    validate_token_and_get_identity, verify_token, RequestContext,
};

const DAY: i64 = 86_400;
const NOW: i64 = 1_700_000_000;

fn object(members: &[(&str, serde_json::Value)]) -> serde_json::Value {
    let mut map = serde_json::Map::new();
    for (name, value) in members {
        map.insert(name.to_string(), value.clone());
    }
    serde_json::Value::Object(map)
}

fn sign(claims: &serde_json::Value, key: &str) -> String {
    jsonwebtoken::encode(
        &jsonwebtoken::Header::new(jsonwebtoken::Algorithm::HS256),
        claims,
        &jsonwebtoken::EncodingKey::from_secret(key.as_bytes()),
    )
    .unwrap()
}

fn full_claims(sub: &str, kind: &str, exp: i64) -> serde_json::Value {
    object(&[
        ("sub", serde_json::Value::from(sub)),
        ("token_type", serde_json::Value::from(kind)),
        ("created_at", serde_json::Value::from("then")),
        ("exp", serde_json::Value::from(exp)),
        ("iat", serde_json::Value::from(NOW)),
    ])
}

#[test]
fn setting_up_does_nothing_and_succeeds() {
    assert_eq!(init_jwt_manager(), Ok(()));
}

#[test]
fn an_issued_access_token_verifies_with_its_subject() {
    let mut manager = KeyPool::new(7, 8, NOW);
    let pair = create_tokens_at(&mut manager, "alice", None, NOW, "then").unwrap();
    let claims = verify_token_at(&mut manager, &pair.lmoadll_user, TokenKind::Access, NOW).unwrap();
    assert_eq!(claims.sub, "alice");
    assert_eq!(claims.token_type, "access");
    assert_eq!(claims.created_at, "then");
    assert_eq!(claims.iat, NOW);
    assert_eq!(claims.exp, NOW + 900);
}

#[test]
fn an_issued_refresh_token_verifies_with_its_subject() {
    let mut manager = KeyPool::new(7, 8, NOW);
    let pair = create_tokens_at(&mut manager, "alice", None, NOW, "then").unwrap();
    let claims =
        verify_token_at(&mut manager, &pair.lmoadll_refresh_token, TokenKind::Refresh, NOW).unwrap();
    assert_eq!(claims.sub, "alice");
    assert_eq!(claims.token_type, "refresh");
    assert_eq!(claims.exp, NOW + 604_800);
}

#[test]
fn an_issued_token_is_a_token_in_three_parts_under_the_current_key() {
    let mut manager = KeyPool::new(7, 8, NOW);
    let key = manager.current_key(NOW);
    let pair = create_tokens_at(&mut manager, "alice", None, NOW, "then").unwrap();
    assert_eq!(pair.lmoadll_user.split('.').count(), 3);
    assert!(is_compact(&pair.lmoadll_user));
    assert_eq!(pair.lmoadll_user, sign(&full_claims("alice", "access", NOW + 900), &key));
    assert_eq!(
        pair.lmoadll_refresh_token,
        sign(&full_claims("alice", "refresh", NOW + 604_800), &key)
    );
}

#[test]
fn sealing_signs_the_claims_as_they_are() {
    let claims = create_claims("alice", "access", 15, &Vec::new(), NOW, "then").unwrap();
    let token = seal(&claims, "a secret").unwrap();
    assert_eq!(token, sign(&full_claims("alice", "access", NOW + 900), "a secret"));
    let read = check_token(&vec!["a secret".to_string()], &token, TokenKind::Access, NOW).unwrap();
    assert_eq!(read.sub, claims.sub);
    assert_eq!(read.token_type, claims.token_type);
    assert_eq!(read.created_at, claims.created_at);
    assert_eq!(read.exp, claims.exp);
    assert_eq!(read.iat, claims.iat);
    assert!(seal(&claims, "").is_some());
}

#[test]
fn identities_of_any_shape_come_back_unchanged() {
    let mut manager = KeyPool::new(7, 8, NOW);
    for identity in ["", "a", "user@example.org", "名前", "with \"quotes\" and \\ and \n", "a.b.c"] {
        let pair = create_tokens_at(&mut manager, identity, None, NOW, "then").unwrap();
        let claims =
            verify_token_at(&mut manager, &pair.lmoadll_user, TokenKind::Access, NOW).unwrap();
        assert_eq!(claims.sub, identity);
    }
}

#[test]
fn a_refresh_token_is_not_accepted_as_an_access_token() {
    let mut manager = KeyPool::new(7, 8, NOW);
    let pair = create_tokens_at(&mut manager, "alice", None, NOW, "then").unwrap();
    let checked = verify_token_at(&mut manager, &pair.lmoadll_refresh_token, TokenKind::Access, NOW);
    assert_eq!(checked.err(), Some(TokenError::WrongTokenType));
}

#[test]
fn an_access_token_is_not_accepted_as_a_refresh_token() {
    let mut manager = KeyPool::new(7, 8, NOW);
    let pair = create_tokens_at(&mut manager, "alice", None, NOW, "then").unwrap();
    let checked = verify_token_at(&mut manager, &pair.lmoadll_user, TokenKind::Refresh, NOW);
    assert_eq!(checked.err(), Some(TokenError::WrongTokenType));
}

#[test]
fn a_caller_cannot_turn_an_access_token_into_a_refresh_token() {
    let mut manager = KeyPool::new(7, 8, NOW);
    let extras = vec![("token_type".to_string(), "refresh".to_string())];
    let pair = create_tokens_at(&mut manager, "alice", Some(extras), NOW, "then").unwrap();
    let claims = verify_token_at(&mut manager, &pair.lmoadll_user, TokenKind::Access, NOW).unwrap();
    assert_eq!(claims.token_type, "access");
}

#[test]
fn extra_claims_may_rename_the_subject() {
    let mut manager = KeyPool::new(7, 8, NOW);
    let extras = vec![("sub".to_string(), "bob".to_string())];
    let pair = create_tokens_at(&mut manager, "alice", Some(extras), NOW, "then").unwrap();
    let claims = verify_token_at(&mut manager, &pair.lmoadll_user, TokenKind::Access, NOW).unwrap();
    assert_eq!(claims.sub, "bob");
}

#[test]
fn a_token_is_good_up_to_its_last_second_and_expired_after_it() {
    let mut manager = KeyPool::new(7, 8, NOW);
    let pair = create_tokens_at(&mut manager, "alice", None, NOW, "then").unwrap();
    assert!(verify_token_at(&mut manager, &pair.lmoadll_user, TokenKind::Access, NOW + 900).is_ok());
    let late = verify_token_at(&mut manager, &pair.lmoadll_user, TokenKind::Access, NOW + 901);
    assert_eq!(late.err(), Some(TokenError::Expired));
    let wrong_kind = verify_token_at(&mut manager, &pair.lmoadll_user, TokenKind::Refresh, NOW + 901);
    assert_eq!(wrong_kind.err(), Some(TokenError::Expired));
}

#[test]
fn a_refresh_token_outlives_the_access_token() {
    let mut manager = KeyPool::new(30, 8, NOW);
    let pair = create_tokens_at(&mut manager, "alice", None, NOW, "then").unwrap();
    let at = NOW + 6 * DAY;
    assert!(verify_token_at(&mut manager, &pair.lmoadll_refresh_token, TokenKind::Refresh, at).is_ok());
    let late = verify_token_at(&mut manager, &pair.lmoadll_refresh_token, TokenKind::Refresh, NOW + 7 * DAY + 1);
    assert_eq!(late.err(), Some(TokenError::Expired));
}

#[test]
fn a_token_signed_before_a_rotation_verifies_after_it() {
    let mut manager = KeyPool::new(7, 8, NOW);
    let pair = create_tokens_at(&mut manager, "alice", None, NOW, "then").unwrap();
    let old_key = manager.current_key(NOW);
    let new_key = manager.rotate(NOW + 1);
    assert_ne!(old_key, new_key);
    let claims = verify_token_at(&mut manager, &pair.lmoadll_user, TokenKind::Access, NOW + 1).unwrap();
    assert_eq!(claims.sub, "alice");
    let fresh = create_tokens_at(&mut manager, "bob", None, NOW + 1, "then").unwrap();
    assert_eq!(fresh.lmoadll_user, sign(&full_claims_at("bob", "access", NOW + 1), &new_key));
}

fn full_claims_at(sub: &str, kind: &str, iat: i64) -> serde_json::Value {
    object(&[
        ("sub", serde_json::Value::from(sub)),
        ("token_type", serde_json::Value::from(kind)),
        ("created_at", serde_json::Value::from("then")),
        ("exp", serde_json::Value::from(iat + 900)),
        ("iat", serde_json::Value::from(iat)),
    ])
}

#[test]
fn a_token_fails_for_its_signature_once_its_key_has_aged_out() {
    let mut manager = KeyPool::new(3, 8, NOW);
    let pair = create_tokens_at(&mut manager, "alice", None, NOW, "then").unwrap();
    manager.rotate(NOW + 2 * DAY);
    let at = NOW + 3 * DAY;
    assert!(verify_token_at(&mut manager, &pair.lmoadll_refresh_token, TokenKind::Refresh, at).is_ok());
    let at = NOW + 3 * DAY + 1;
    let late = verify_token_at(&mut manager, &pair.lmoadll_refresh_token, TokenKind::Refresh, at);
    assert_eq!(late.err(), Some(TokenError::InvalidSignature));
    assert_eq!(manager.key_count(), 1);
}

#[test]
fn a_token_fails_for_its_signature_once_its_key_was_pushed_out() {
    let mut manager = KeyPool::new(7, 2, NOW);
    let pair = create_tokens_at(&mut manager, "alice", None, NOW, "then").unwrap();
    manager.rotate(NOW + 1);
    assert!(verify_token_at(&mut manager, &pair.lmoadll_user, TokenKind::Access, NOW + 1).is_ok());
    manager.rotate(NOW + 2);
    let late = verify_token_at(&mut manager, &pair.lmoadll_user, TokenKind::Access, NOW + 2);
    assert_eq!(late.err(), Some(TokenError::InvalidSignature));
}

#[test]
fn a_token_of_another_pool_fails_for_its_signature() {
    let mut ours = KeyPool::new(7, 8, NOW);
    let mut theirs = KeyPool::new(7, 8, NOW);
    let pair = create_tokens_at(&mut theirs, "alice", None, NOW, "then").unwrap();
    let checked = verify_token_at(&mut ours, &pair.lmoadll_user, TokenKind::Access, NOW);
    assert_eq!(checked.err(), Some(TokenError::InvalidSignature));
}

#[test]
fn a_token_that_was_tampered_with_fails_for_its_signature() {
    let mut manager = KeyPool::new(7, 8, NOW);
    let key = manager.current_key(NOW);
    let good = sign(&full_claims("alice", "access", NOW + 900), &key);
    let forged = sign(&full_claims("admin", "access", NOW + 900), "another secret");
    let good_parts: Vec<&str> = good.split('.').collect();
    let forged_parts: Vec<&str> = forged.split('.').collect();
    let mixed = format!("{}.{}.{}", good_parts[0], forged_parts[1], good_parts[2]);
    let checked = verify_token_at(&mut manager, &mixed, TokenKind::Access, NOW);
    assert_eq!(checked.err(), Some(TokenError::InvalidSignature));
}

#[test]
fn text_that_is_no_token_is_malformed() {
    let mut manager = KeyPool::new(7, 8, NOW);
    for text in ["not-a-token", "", ".", "..", "a.b", "a.b.c", "a.b.c.d", "invalid_token", "???.???.???"] {
        let checked = verify_token_at(&mut manager, text, TokenKind::Access, NOW);
        assert_eq!(checked.err(), Some(TokenError::MalformedToken));
    }
}

#[test]
fn compact_form_means_two_full_stops() {
    assert!(is_compact("a.b.c"));
    assert!(is_compact(".."));
    assert!(!is_compact(""));
    assert!(!is_compact("a.b"));
    assert!(!is_compact("a.b.c.d"));
    assert!(!is_compact("....."));
}

#[test]
fn a_signed_token_without_the_expected_claims_is_malformed() {
    let mut manager = KeyPool::new(7, 8, NOW);
    let key = manager.current_key(NOW);
    let partial = object(&[
        ("sub", serde_json::Value::from("alice")),
        ("exp", serde_json::Value::from(NOW + 900)),
    ]);
    let checked = verify_token_at(&mut manager, &sign(&partial, &key), TokenKind::Access, NOW);
    assert_eq!(checked.err(), Some(TokenError::MalformedToken));
    let wrong_type = object(&[
        ("sub", serde_json::Value::from(7)),
        ("token_type", serde_json::Value::from("access")),
        ("created_at", serde_json::Value::from("then")),
        ("exp", serde_json::Value::from(NOW + 900)),
        ("iat", serde_json::Value::from(NOW)),
    ]);
    let checked = verify_token_at(&mut manager, &sign(&wrong_type, &key), TokenKind::Access, NOW);
    assert_eq!(checked.err(), Some(TokenError::MalformedToken));
}

#[test]
fn a_token_of_an_unknown_kind_is_of_the_wrong_kind() {
    let mut manager = KeyPool::new(7, 8, NOW);
    let key = manager.current_key(NOW);
    let token = sign(&full_claims("alice", "session", NOW + 900), &key);
    let checked = verify_token_at(&mut manager, &token, TokenKind::Access, NOW);
    assert_eq!(checked.err(), Some(TokenError::WrongTokenType));
    let checked = verify_token_at(&mut manager, &token, TokenKind::Refresh, NOW);
    assert_eq!(checked.err(), Some(TokenError::WrongTokenType));
}

#[test]
fn expiry_is_held_against_the_time_given_and_not_against_the_clock() {
    let mut manager = KeyPool::new(7, 8, 1_000);
    let pair = create_tokens_at(&mut manager, "alice", None, 1_000, "then").unwrap();
    let claims = verify_token_at(&mut manager, &pair.lmoadll_user, TokenKind::Access, 1_500).unwrap();
    assert_eq!(claims.exp, 1_900);
    let negative = create_tokens_at(&mut manager, "alice", None, -5_000, "then").unwrap();
    let claims = verify_token_at(&mut manager, &negative.lmoadll_user, TokenKind::Access, -4_500).unwrap();
    assert_eq!(claims.exp, -4_100);
}

#[test]
fn check_token_tries_every_key_it_is_given() {
    let first = "first secret".to_string();
    let second = "second secret".to_string();
    let token = sign(&full_claims("alice", "access", NOW + 900), &second);
    let claims = check_token(&vec![first.clone(), second.clone()], &token, TokenKind::Access, NOW).unwrap();
    assert_eq!(claims.sub, "alice");
    let checked = check_token(&vec![first], &token, TokenKind::Access, NOW);
    assert_eq!(checked.err(), Some(TokenError::InvalidSignature));
    let checked = check_token(&Vec::new(), &token, TokenKind::Access, NOW);
    assert_eq!(checked.err(), Some(TokenError::InvalidSignature));
}

#[test]
fn issuing_fails_where_the_expiry_does_not_fit() {
    let mut manager = KeyPool::new(7, 8, 0);
    let made = create_tokens_at(&mut manager, "alice", None, i64::MAX - 1_000, "then");
    assert_eq!(made.err(), Some(TokenError::InternalSigningFailure));
}

#[test]
fn the_single_token_is_the_access_token_of_the_pair() {
    let mut manager = KeyPool::new(7, 8, NOW);
    let single = create_jwt_token_at(&mut manager, "alice", None, NOW, "then").unwrap();
    let pair = create_tokens_at(&mut manager, "alice", None, NOW, "then").unwrap();
    assert_eq!(single, pair.lmoadll_user);
}

#[test]
fn a_refresh_gives_a_new_access_token_for_the_same_identity() {
    let mut manager = KeyPool::new(7, 8, NOW);
    let pair = create_tokens_at(&mut manager, "alice", None, NOW, "then").unwrap();
    let access =
        refresh_token_at(&mut manager, &pair.lmoadll_refresh_token, None, NOW + 60, "later").unwrap();
    assert_ne!(access, pair.lmoadll_user);
    let claims = verify_token_at(&mut manager, &access, TokenKind::Access, NOW + 60).unwrap();
    assert_eq!(claims.sub, "alice");
    assert_eq!(claims.token_type, "access");
    assert_eq!(claims.iat, NOW + 60);
    assert_eq!(claims.exp, NOW + 960);
    assert_eq!(claims.created_at, "later");
}

#[test]
fn a_refresh_at_the_same_instant_repeats_the_access_token() {
    let mut manager = KeyPool::new(7, 8, NOW);
    let pair = create_tokens_at(&mut manager, "alice", None, NOW, "then").unwrap();
    let access = refresh_token_at(&mut manager, &pair.lmoadll_refresh_token, None, NOW, "then").unwrap();
    assert_eq!(access, pair.lmoadll_user);
    let access = refresh_token_at(&mut manager, &pair.lmoadll_refresh_token, None, NOW, "now").unwrap();
    assert_ne!(access, pair.lmoadll_user);
}

#[test]
fn a_refresh_token_can_be_used_more_than_once() {
    let mut manager = KeyPool::new(7, 8, NOW);
    let pair = create_tokens_at(&mut manager, "alice", None, NOW, "then").unwrap();
    assert!(refresh_token_at(&mut manager, &pair.lmoadll_refresh_token, None, NOW + 1, "a").is_ok());
    assert!(refresh_token_at(&mut manager, &pair.lmoadll_refresh_token, None, NOW + 2, "b").is_ok());
}

#[test]
fn a_refresh_is_signed_with_the_newest_key() {
    let mut manager = KeyPool::new(7, 8, NOW);
    let pair = create_tokens_at(&mut manager, "alice", None, NOW, "then").unwrap();
    let new_key = manager.rotate(NOW + 1);
    let access =
        refresh_token_at(&mut manager, &pair.lmoadll_refresh_token, None, NOW + 1, "then").unwrap();
    assert_eq!(access, sign(&full_claims_at("alice", "access", NOW + 1), &new_key));
}

#[test]
fn a_refresh_does_not_heed_the_context() {
    let mut manager = KeyPool::new(7, 8, NOW);
    let pair = create_tokens_at(&mut manager, "alice", None, NOW, "then").unwrap();
    let context = RequestContext::new("203.0.113.9".to_string(), "agent".to_string());
    assert_eq!(context.remote_addr, "203.0.113.9");
    assert_eq!(context.user_agent, "agent");
    let with = refresh_token_at(&mut manager, &pair.lmoadll_refresh_token, Some(&context), NOW + 5, "t");
    let without = refresh_token_at(&mut manager, &pair.lmoadll_refresh_token, None, NOW + 5, "t");
    assert_eq!(with, without);
    assert!(with.is_ok());
}

#[test]
fn an_access_token_cannot_be_traded_in() {
    let mut manager = KeyPool::new(7, 8, NOW);
    let pair = create_tokens_at(&mut manager, "alice", None, NOW, "then").unwrap();
    let made = refresh_token_at(&mut manager, &pair.lmoadll_user, None, NOW, "then");
    assert_eq!(made.err(), Some(TokenError::WrongTokenType));
}

#[test]
fn a_refresh_hands_on_the_error_of_the_check() {
    let mut manager = KeyPool::new(7, 8, NOW);
    let pair = create_tokens_at(&mut manager, "alice", None, NOW, "then").unwrap();
    let made = refresh_token_at(&mut manager, "invalid_refresh_token", None, NOW, "then");
    assert_eq!(made.err(), Some(TokenError::MalformedToken));
    let made = refresh_token_at(&mut manager, &pair.lmoadll_refresh_token, None, NOW + 8 * DAY, "t");
    assert_eq!(made.err(), Some(TokenError::InvalidSignature));
    let mut lasting = KeyPool::new(30, 8, NOW);
    let pair = create_tokens_at(&mut lasting, "alice", None, NOW, "then").unwrap();
    let made = refresh_token_at(&mut lasting, &pair.lmoadll_refresh_token, None, NOW + 8 * DAY, "t");
    assert_eq!(made.err(), Some(TokenError::Expired));
}

#[test]
fn a_refresh_token_for_nobody_is_turned_down() {
    let mut manager = KeyPool::new(7, 8, NOW);
    let pair = create_tokens_at(&mut manager, "", None, NOW, "then").unwrap();
    let made = refresh_token_at(&mut manager, &pair.lmoadll_refresh_token, None, NOW, "then");
    assert_eq!(made.err(), Some(TokenError::InvalidIdentity));
}

#[test]
fn a_refresh_fails_where_the_new_expiry_does_not_fit() {
    let mut manager = KeyPool::new(7, 8, NOW);
    let key = manager.current_key(NOW);
    let token = sign(&full_claims("alice", "refresh", i64::MAX), &key);
    let at = NOW + DAY;
    assert!(refresh_token_at(&mut manager, &token, None, at, "t").is_ok());
    let mut far = KeyPool::new(7, 8, i64::MAX - 10);
    let key = far.current_key(i64::MAX - 10);
    let token = sign(&full_claims("alice", "refresh", i64::MAX), &key);
    let made = refresh_token_at(&mut far, &token, None, i64::MAX - 10, "t");
    assert_eq!(made.err(), Some(TokenError::InternalSigningFailure));
}

#[test]
fn the_bearer_token_is_what_follows_the_word() {
    assert_eq!(extract_bearer_token("Bearer abc"), Some("abc"));
    assert_eq!(extract_bearer_token("Bearer "), Some(""));
    assert_eq!(extract_bearer_token("Bearer  abc"), Some(" abc"));
    assert_eq!(extract_bearer_token("Bearer a.b.c d"), Some("a.b.c d"));
    assert_eq!(extract_bearer_token("Bearer 名前"), Some("名前"));
}

#[test]
fn a_header_without_the_word_has_no_bearer_token() {
    assert_eq!(extract_bearer_token(""), None);
    assert_eq!(extract_bearer_token("Bearer"), None);
    assert_eq!(extract_bearer_token("bearer abc"), None);
    assert_eq!(extract_bearer_token("Basic abc"), None);
    assert_eq!(extract_bearer_token(" Bearer abc"), None);
    assert_eq!(extract_bearer_token("名前名前名前名前"), None);
}

#[test]
fn the_identity_comes_from_the_header_first_and_from_the_cookie_else() {
    let mut manager = KeyPool::new(7, 8, NOW);
    let alice = create_tokens_at(&mut manager, "alice", None, NOW, "then").unwrap();
    let bob = create_tokens_at(&mut manager, "bob", None, NOW, "then").unwrap();
    let header = format!("Bearer {}", alice.lmoadll_user);
    let both = get_current_user_identity_at(&mut manager, Some(&header), Some(&bob.lmoadll_user), NOW);
    assert_eq!(both, Some("alice".to_string()));
    let cookie_only = get_current_user_identity_at(&mut manager, None, Some(&bob.lmoadll_user), NOW);
    assert_eq!(cookie_only, Some("bob".to_string()));
    let bad_header = get_current_user_identity_at(
        &mut manager,
        Some("Bearer invalid_token"),
        Some(&bob.lmoadll_user),
        NOW,
    );
    assert_eq!(bad_header, Some("bob".to_string()));
    let no_word = get_current_user_identity_at(&mut manager, Some(&alice.lmoadll_user), None, NOW);
    assert_eq!(no_word, None);
    assert_eq!(get_current_user_identity_at(&mut manager, None, None, NOW), None);
}

#[test]
fn a_refresh_token_proves_no_identity() {
    let mut manager = KeyPool::new(7, 8, NOW);
    let pair = create_tokens_at(&mut manager, "alice", None, NOW, "then").unwrap();
    let header = format!("Bearer {}", pair.lmoadll_refresh_token);
    assert_eq!(get_current_user_identity_at(&mut manager, Some(&header), None, NOW), None);
    let proved = validate_token_and_get_identity_at(&mut manager, &pair.lmoadll_refresh_token, NOW);
    assert_eq!(proved.err(), Some(TokenError::WrongTokenType));
    let proved = validate_token_and_get_identity_at(&mut manager, &pair.lmoadll_user, NOW);
    assert_eq!(proved, Ok("alice".to_string()));
}

#[test]
fn an_expired_access_token_proves_no_identity() {
    let mut manager = KeyPool::new(7, 8, NOW);
    let pair = create_tokens_at(&mut manager, "alice", None, NOW, "then").unwrap();
    let header = format!("Bearer {}", pair.lmoadll_user);
    assert_eq!(get_current_user_identity_at(&mut manager, Some(&header), None, NOW + 901), None);
}

#[test]
fn the_functions_on_secrets_agree_with_the_functions_on_a_pool() {
    let mut pool = KeyPool::new(7, 8, NOW);
    let key = pool.current_key(NOW);
    let by_pool = create_tokens_at(&mut pool, "alice", None, NOW, "then").unwrap();
    let by_key = issue_with_key("alice", None, NOW, "then", &key).unwrap();
    assert_eq!(by_pool.lmoadll_user, by_key.lmoadll_user);
    assert_eq!(by_pool.lmoadll_refresh_token, by_key.lmoadll_refresh_token);
    let keys = pool.all_valid_keys(NOW);
    let by_pool = refresh_token_at(&mut pool, &by_key.lmoadll_refresh_token, None, NOW + 1, "t");
    let by_keys = refresh_with_keys(&keys, &by_key.lmoadll_refresh_token, None, NOW + 1, "t");
    assert_eq!(by_pool, by_keys);
    assert!(by_keys.is_ok());
    let header = format!("Bearer {}", by_key.lmoadll_user);
    assert_eq!(identity_with_keys(&keys, Some(&header), None, NOW), Some("alice".to_string()));
    assert_eq!(refresh_with_keys(&Vec::new(), &by_key.lmoadll_refresh_token, None, NOW, "t").err(), Some(TokenError::InvalidSignature));
}

#[test]
fn the_manager_accepts_a_token_made_now() {
    let manager = JwtKeyManager::new(7, 8);
    let pair = create_tokens(&manager, "alice", None).unwrap();
    let claims = verify_token(&manager, &pair.lmoadll_user, TokenKind::Access).unwrap();
    assert_eq!(claims.sub, "alice");
    assert_eq!(claims.exp - claims.iat, 900);
    assert!(claims.created_at.starts_with("20"));
    assert_eq!(validate_token_and_get_identity(&manager, &pair.lmoadll_user), Ok("alice".to_string()));
    let checked = verify_token(&manager, &pair.lmoadll_user, TokenKind::Refresh);
    assert_eq!(checked.err(), Some(TokenError::WrongTokenType));
    assert_eq!(verify_token(&manager, "not-a-token", TokenKind::Access).err(), Some(TokenError::MalformedToken));
}

#[test]
fn the_manager_keeps_accepting_a_token_after_a_rotation() {
    let manager = JwtKeyManager::new(7, 8);
    let pair = create_tokens(&manager, "alice", None).unwrap();
    manager.rotate();
    assert_eq!(validate_token_and_get_identity(&manager, &pair.lmoadll_user), Ok("alice".to_string()));
    let access = refresh_token(&manager, &pair.lmoadll_refresh_token, None).unwrap();
    assert_eq!(validate_token_and_get_identity(&manager, &access), Ok("alice".to_string()));
}

#[test]
fn many_workers_issue_and_check_tokens_while_keys_rotate() {
    let runtime = tokio::runtime::Builder::new_multi_thread().worker_threads(4).build().unwrap();
    let manager = std::sync::Arc::new(JwtKeyManager::new(7, 64));
    let mut workers = Vec::new();
    for worker in 0..6 {
        let manager = std::sync::Arc::clone(&manager);
        workers.push(runtime.spawn_blocking(move || {
            for round in 0..5 {
                if worker == 0 {
                    manager.rotate();
                }
                let identity = format!("user-{}-{}", worker, round);
                let pair = create_tokens(&manager, &identity, None).unwrap();
                let proved = validate_token_and_get_identity(&manager, &pair.lmoadll_user);
                assert_eq!(proved, Ok(identity));
            }
        }));
    }
    for worker in workers {
        runtime.block_on(worker).unwrap();
    }
}

fn claims(sub: &str, kind: &str, exp: i64) -> Claims {
    Claims {
        sub: sub.to_string(),
        token_type: kind.to_string(),
        created_at: "then".to_string(),
        exp,
        iat: 0,
    }
}

#[test]
fn the_first_claims_that_are_still_good_decide() {
    let outcomes = vec![
        Err(DecodeFailure::BadSignature),
        Ok(claims("expired", "access", NOW - 1)),
        Ok(claims("alice", "access", NOW)),
        Ok(claims("bob", "refresh", NOW + 10)),
    ];
    let checked = judge(&outcomes, TokenKind::Access, NOW).unwrap();
    assert_eq!(checked.sub, "alice");
    assert_eq!(checked.exp, NOW);
    assert_eq!(judge(&outcomes, TokenKind::Refresh, NOW).err(), Some(TokenError::WrongTokenType));
    let checked = judge(&outcomes, TokenKind::Refresh, NOW + 1).unwrap();
    assert_eq!(checked.sub, "bob");
}

#[test]
fn without_good_claims_the_worst_that_was_seen_decides() {
    let expired = vec![
        Err(DecodeFailure::Malformed),
        Ok(claims("alice", "access", NOW - 1)),
        Err(DecodeFailure::BadSignature),
    ];
    assert_eq!(judge(&expired, TokenKind::Access, NOW).err(), Some(TokenError::Expired));
    assert_eq!(judge(&expired, TokenKind::Refresh, NOW).err(), Some(TokenError::Expired));
    let unreadable = vec![Err(DecodeFailure::BadSignature), Err(DecodeFailure::Malformed)];
    assert_eq!(judge(&unreadable, TokenKind::Access, NOW).err(), Some(TokenError::MalformedToken));
    let unsigned = vec![Err(DecodeFailure::BadSignature), Err(DecodeFailure::BadSignature)];
    assert_eq!(judge(&unsigned, TokenKind::Access, NOW).err(), Some(TokenError::InvalidSignature));
    assert_eq!(judge(&Vec::new(), TokenKind::Access, NOW).err(), Some(TokenError::InvalidSignature));
}
