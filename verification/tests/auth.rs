use jet_black::auth::{
    cookie_value, random_token, same_secret, session_cookie, AuthError, SessionManager,
};

#[test]
fn cookie_values_are_found_by_name() {
    assert_eq!(cookie_value("a=1; jet_black_session=tok; b=2", "jet_black_session"), Some("tok"));
    assert_eq!(cookie_value("jet_black_session=x", "jet_black_session"), Some("x"));
    assert_eq!(cookie_value("  jet_black_session=spaced  ;", "jet_black_session"), Some("spaced"));
    assert_eq!(cookie_value("other=1", "jet_black_session"), None);
    assert_eq!(cookie_value("", "jet_black_session"), None);
    assert_eq!(cookie_value("jet_black_session_extra=1", "jet_black_session"), None);
    assert_eq!(cookie_value("a=1;jet_black_session=first;jet_black_session=second", "jet_black_session"), Some("first"));
    assert_eq!(cookie_value("\u{3000}jet_black_session=wide\u{a0}", "jet_black_session"), Some("wide"));
}

#[test]
fn session_cookie_is_http_only_and_strict() {
    assert_eq!(
        session_cookie("abc"),
        "jet_black_session=abc; HttpOnly; SameSite=Strict; Path=/; Max-Age=900"
    );
}

#[test]
fn random_tokens_are_url_safe_base64_of_32_bytes() {
    let token = random_token().unwrap();
    assert_eq!(token.len(), 43);
    assert!(token.chars().all(|c| c.is_ascii_alphanumeric() || c == '-' || c == '_'));
    assert_ne!(token, random_token().unwrap());
}

#[test]
fn secrets_compare_by_content() {
    assert!(same_secret("launch", "launch"));
    assert!(!same_secret("launch", "launcH"));
    assert!(!same_secret("launch", "launch-longer"));
}

#[test]
fn launch_token_is_exchanged_once() {
    let mut manager = SessionManager::with_launch_token("launch".to_owned());
    assert_eq!(
        manager.exchange_with("wrong", "s1".to_owned(), "c1".to_owned(), 1_000).err(),
        Some(AuthError::InvalidExchangeToken)
    );
    let (token, exchange) = manager.exchange_with("launch", "s1".to_owned(), "c1".to_owned(), 1_000).unwrap();
    assert_eq!(token, "s1");
    assert_eq!(exchange.csrf_token, "c1");
    assert_eq!(exchange.expires_at_unix_ms, 901_000);
    assert_eq!(
        manager.exchange_with("launch", "s2".to_owned(), "c2".to_owned(), 1_000).err(),
        Some(AuthError::ExchangeConsumed)
    );
}

#[test]
fn sessions_authenticate_until_they_expire() {
    let mut manager = SessionManager::with_launch_token("launch".to_owned());
    manager.exchange_with("launch", "s1".to_owned(), "c1".to_owned(), 1_000).unwrap();
    let cookie = "jet_black_session=s1";
    assert_eq!(manager.authenticate_at(Some(cookie), None, false, 900_999), Ok(()));
    assert_eq!(manager.authenticate_at(Some(cookie), Some("c1"), true, 900_999), Ok(()));
    assert_eq!(manager.authenticate_at(Some(cookie), Some("c2"), true, 900_999), Err(AuthError::InvalidCsrf));
    assert_eq!(manager.authenticate_at(Some(cookie), None, true, 900_999), Err(AuthError::MissingCsrf));
    assert_eq!(manager.authenticate_at(None, Some("c1"), true, 900_999), Err(AuthError::MissingSession));
    assert_eq!(manager.authenticate_at(Some("jet_black_session=s9"), None, false, 900_999), Err(AuthError::InvalidSession));
    assert_eq!(manager.authenticate_at(Some(cookie), None, false, 901_000), Err(AuthError::InvalidSession));
    assert_eq!(manager.authenticate_at(Some(cookie), None, false, 900_000), Err(AuthError::InvalidSession));
}

#[test]
fn random_exchange_opens_a_usable_session() {
    let (mut manager, launch) = SessionManager::new().unwrap();
    let (token, exchange) = manager.exchange(&launch).unwrap();
    assert_eq!(token.len(), 43);
    let cookie = format!("jet_black_session={token}");
    assert_eq!(manager.authenticate(Some(&cookie), Some(&exchange.csrf_token), true), Ok(()));
    assert_eq!(manager.exchange(&launch).err(), Some(AuthError::ExchangeConsumed));
}

#[test]
fn auth_errors_describe_themselves() {
    assert_eq!(AuthError::ExchangeConsumed.message(), "the launch exchange token has already been consumed");
    assert_eq!(AuthError::InvalidCsrf.message(), "the CSRF token is invalid");
}

#[test]
fn a_wrong_launch_token_changes_nothing() {
    let mut manager = SessionManager::with_launch_token("launch".to_owned());
    assert_eq!(
        manager.exchange_with("guess", "s0".to_owned(), "c0".to_owned(), 0).err(),
        Some(AuthError::InvalidExchangeToken)
    );
    assert_eq!(manager.authenticate_at(Some("jet_black_session=s0"), None, false, 1), Err(AuthError::InvalidSession));
    let (token, exchange) = manager.exchange_with("launch", "s1".to_owned(), "c1".to_owned(), 5).unwrap();
    assert_eq!(exchange.expires_at_unix_ms, 900_005);
    let cookie = format!("jet_black_session={token}");
    assert_eq!(manager.authenticate_at(Some(&cookie), Some(&exchange.csrf_token), true, 900_004), Ok(()));
}
