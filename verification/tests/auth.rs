use blog_analytics::auth::{
    auth_decision, check_login, create_session_token, login_error_html, login_outcome, session_token_at,
    password_source, verify_session_token, verify_token, AuthConfig, PasswordSource, AuthDecision, LoginForm, LoginOutcome, TokenError, COOKIE_NAME,
};

#[test]
fn test_session_token_roundtrip() {
    let secret = b"test-secret-key-1234567890";
    let token = create_session_token(secret);
    assert!(verify_session_token(&token, secret));
}

#[test]
fn test_session_token_invalid() {
    let secret = b"test-secret-key-1234567890";
    assert!(!verify_session_token("invalid", secret));
    assert!(!verify_session_token("123.abc", secret));
}

#[test]
fn session_token_has_known_signature() {
    let token = session_token_at(1700000000, b"test-secret-key-1234567890");
    assert_eq!(token, "1700000000.dfb568f30d719a6d18edebf0dea49711789214ce0f20f25b1f79b03e0c5f5edc");
    assert!(verify_session_token(&token, b"test-secret-key-1234567890"));
}

#[test]
fn session_token_negative_time_and_empty_key() {
    let token = session_token_at(-42, b"");
    assert_eq!(token, "-42.2bad5df3409eae09503d6661896752045f272bcbff0735bbe4c82e0b3731008f");
    assert!(verify_session_token(&token, b""));
}

#[test]
fn session_token_extreme_times_roundtrip() {
    for t in [i64::MIN, -1, 0, 9, 10, i64::MAX] {
        let token = session_token_at(t, b"k");
        assert!(token.starts_with(&format!("{t}.")));
        assert!(verify_session_token(&token, b"k"));
    }
}

#[test]
fn session_token_rejects_tampering() {
    let secret = b"secret";
    let token = session_token_at(1700000000, secret);
    assert!(!verify_session_token(&token, b"other secret"));
    let tampered = token.replacen("1700000000", "1700000001", 1);
    assert!(!verify_session_token(&tampered, secret));
    assert!(!verify_session_token(&format!("{token}x"), secret));
    assert!(!verify_session_token("", secret));
    assert!(!verify_session_token(".", secret));
}

#[test]
fn session_token_signature_after_first_dot() {
    // The timestamp part ends at the first dot; later dots belong to the signature.
    let secret = b"s";
    let token = session_token_at(5, secret);
    let with_extra_dot = format!("5.{}", &token[2..]).replacen('.', "..", 1);
    assert!(!verify_session_token(&with_extra_dot, secret));
}

#[test]
fn middleware_decisions() {
    let secret = b"secret";
    let token = session_token_at(1, secret);
    assert_eq!(auth_decision(Some(&token), secret, "/dashboard"), AuthDecision::Proceed);
    assert_eq!(auth_decision(Some(&token), secret, "/api/v1/stats/rss"), AuthDecision::Proceed);
    assert_eq!(auth_decision(None, secret, "/api/v1/stats/rss"), AuthDecision::Unauthorized);
    assert_eq!(auth_decision(Some("1.bad"), secret, "/api/"), AuthDecision::Unauthorized);
    assert_eq!(auth_decision(None, secret, "/dashboard/bots"), AuthDecision::RedirectToLogin);
    assert_eq!(auth_decision(None, secret, "/api"), AuthDecision::RedirectToLogin);
    assert_eq!(COOKIE_NAME, "analytics_session");
}

#[test]
fn bearer_token_checks() {
    let expected = Some("tok".to_string());
    assert_eq!(verify_token(None, &None), Ok(()));
    assert_eq!(verify_token(Some("anything"), &None), Ok(()));
    assert_eq!(verify_token(None, &expected), Err(TokenError::MissingHeader));
    assert_eq!(verify_token(Some("Basic tok"), &expected), Err(TokenError::InvalidFormat));
    assert_eq!(verify_token(Some("bearer tok"), &expected), Err(TokenError::InvalidFormat));
    assert_eq!(verify_token(Some("Bearer tok2"), &expected), Err(TokenError::InvalidToken));
    assert_eq!(verify_token(Some("Bearer "), &expected), Err(TokenError::InvalidToken));
    assert_eq!(verify_token(Some("Bearer tok"), &expected), Ok(()));
    assert_eq!(TokenError::MissingHeader.message(), "Missing Authorization header");
    assert_eq!(TokenError::InvalidFormat.message(), "Invalid Authorization format");
    assert_eq!(TokenError::InvalidToken.message(), "Invalid token");
}

#[test]
fn login_outcomes() {
    let secret = b"secret";
    match login_outcome(Some(true), 77, secret) {
        LoginOutcome::SignedIn(token) => {
            assert_eq!(token, session_token_at(77, secret));
            assert!(verify_session_token(&token, secret));
        }
        LoginOutcome::Rejected => panic!("a right password signs in"),
    }
    assert!(matches!(login_outcome(Some(false), 77, secret), LoginOutcome::Rejected));
    assert!(matches!(login_outcome(None, 77, secret), LoginOutcome::Rejected));
    assert_eq!(LoginOutcome::Rejected.location(), "/dashboard/login?error=1");
    assert_eq!(LoginOutcome::SignedIn(String::new()).location(), "/dashboard");
}

#[test]
fn login_with_bcrypt_hash() {
    let config = AuthConfig { password_hash: bcrypt::hash("admin", 4).unwrap(), cookie_secret: b"key".to_vec() };
    let right = check_login(&LoginForm { password: "admin".to_string() }, &config);
    match right {
        LoginOutcome::SignedIn(token) => assert!(verify_session_token(&token, b"key")),
        LoginOutcome::Rejected => panic!("the right password was refused"),
    }
    let wrong = check_login(&LoginForm { password: "nimda".to_string() }, &config);
    assert!(matches!(wrong, LoginOutcome::Rejected));
    let broken = AuthConfig { password_hash: "not a hash".to_string(), cookie_secret: b"key".to_vec() };
    assert!(matches!(check_login(&LoginForm { password: "admin".to_string() }, &broken), LoginOutcome::Rejected));
}

#[test]
fn login_page_error_note() {
    assert_eq!(login_error_html(false), "");
    assert!(login_error_html(true).contains("Invalid password. Please try again."));
}

#[test]
fn password_source_precedence() {
    let both = password_source(Some("pw".to_string()), Some("$2b$hash".to_string()));
    assert!(matches!(both, PasswordSource::Plaintext(p) if p == "pw"));
    let hash = password_source(None, Some("$2b$hash".to_string()));
    assert!(matches!(hash, PasswordSource::Hash(h) if h == "$2b$hash"));
    assert!(matches!(password_source(None, None), PasswordSource::DevelopmentDefault));
}
