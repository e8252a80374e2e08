use nanofile_service::csrf::{
    csrf_cookie_header, extract_session_token, generate_csrf_token, has_link_unlock_cookie,
    has_valid_upload_link_cookie, link_unlock_cookie, share_link_cookie_name,
    upload_link_cookie_name, validate_csrf_header, validate_csrf_token, validate_origin,
    check_form_csrf,
};

#[test]
fn test_generate_and_validate_csrf_token() {
    let secret = b"test-secret-key-12345678";
    let session = "test-session-token";
    let token = generate_csrf_token(secret, session);
    assert!(validate_csrf_token(secret, session, &token));
}

#[test]
fn test_csrf_token_differs_per_session() {
    let secret = b"test-secret-key-12345678";
    let token1 = generate_csrf_token(secret, "session-a");
    let token2 = generate_csrf_token(secret, "session-b");
    assert_ne!(token1, token2);
}

#[test]
fn test_csrf_token_wrong_secret_fails() {
    let token = generate_csrf_token(b"secret-1", "session");
    assert!(!validate_csrf_token(b"secret-2", "session", &token));
}

#[test]
fn test_csrf_token_constant_time_compare() {
    let secret = b"test-secret-key-12345678";
    let token = generate_csrf_token(secret, "session");
    assert!(validate_csrf_token(secret, "session", &token));
    assert!(!validate_csrf_token(secret, "session", "wrong-token"));
}

#[test]
fn test_extract_session_token() {
    assert_eq!(
        extract_session_token("seahub-session=abc123; other=val"),
        Some("abc123")
    );
    assert_eq!(
        extract_session_token("other=val; seahub-session=xyz789"),
        Some("xyz789")
    );
    assert_eq!(extract_session_token("no-cookie-here"), None);
    assert_eq!(extract_session_token(""), None);
}

#[test]
fn test_validate_origin_matching() {
    assert!(validate_origin(None, None, "https://example.com"));
    assert!(validate_origin(Some("https://example.com"), None, "https://example.com"));
    assert!(!validate_origin(Some("https://evil.com"), None, "https://example.com"));
    assert!(validate_origin(None, Some("https://example.com/some/path"), "https://example.com"));
    assert!(!validate_origin(None, Some("https://evil.com/"), "https://example.com"));
    assert!(!validate_origin(None, Some("https://example.com.evil.com/"), "https://example.com"));
}

#[test]
fn test_csrf_cookie_header_basic() {
    let secret = b"test-secret-key-12345678";
    let cookie = csrf_cookie_header(secret, "session-abc", false, Some(86400));
    assert!(cookie.starts_with("sfcsrftoken="));
    let value = cookie
        .trim_start_matches("sfcsrftoken=")
        .split(';')
        .next()
        .unwrap()
        .trim();
    assert_eq!(value.len(), 64, "HMAC-SHA256 hex should be 64 chars");
    assert!(cookie.contains("Path=/"), "cookie should have Path=/");
    assert!(cookie.contains("SameSite=Lax"), "cookie should have SameSite=Lax");
    assert!(!cookie.contains("HttpOnly"), "CSRF cookie must not be HttpOnly");
    assert!(!cookie.contains("Secure"), "CSRF cookie should not have Secure by default");
    assert!(cookie.contains("Max-Age=86400"), "CSRF cookie should have Max-Age=86400");
}

#[test]
fn test_csrf_cookie_header_secure() {
    let secret = b"test-secret-key-12345678";
    let cookie = csrf_cookie_header(secret, "session-abc", true, None);
    assert!(cookie.contains("; Secure"), "secure=true should add Secure flag");
}

#[test]
fn test_link_unlock_cookie_secure_follows_site_scheme() {
    let secret = b"test-secret-key-12345678";
    for cookie_name in [share_link_cookie_name("tok"), upload_link_cookie_name("tok")] {
        let plain = link_unlock_cookie(&cookie_name, "tok", secret, false);
        let secure = link_unlock_cookie(&cookie_name, "tok", secret, true);
        assert!(!plain.contains("Secure"), "plain-HTTP link cookie must not carry Secure: {plain}");
        assert!(secure.ends_with("; Secure"), "HTTPS link cookie must carry Secure: {secure}");
        assert!(
            plain.contains("HttpOnly") && plain.contains("SameSite=Lax"),
            "link cookie must stay HttpOnly + SameSite=Lax: {plain}"
        );
        assert_eq!(secure.trim_end_matches("; Secure"), plain);
    }
    assert_ne!(share_link_cookie_name("tok"), upload_link_cookie_name("tok"));
}

#[test]
fn test_validate_csrf_header_matches() {
    let secret = b"test-secret-key-12345678";
    let session = "test-session";
    let token = generate_csrf_token(secret, session);
    assert!(validate_csrf_header(Some(&token), secret, session));
}

#[test]
fn test_validate_csrf_header_mismatch() {
    let secret = b"test-secret-key-12345678";
    assert!(!validate_csrf_header(Some("wrong-token-value"), secret, "some-session"));
}

#[test]
fn test_validate_csrf_header_missing() {
    let secret = b"test-secret-key-12345678";
    assert!(!validate_csrf_header(None, secret, "test-session"));
}

#[test]
fn test_extract_session_multiple_cookies() {
    let cookie = "seahub-session=my-token; other=cookie; seahub-session=second";
    assert_eq!(extract_session_token(cookie), Some("my-token"));
}

#[test]
fn csrf_token_is_the_hex_hmac_of_the_session() {
    // HMAC-SHA256(key = "key", message = "The quick brown fox jumps over the lazy dog").
    let token = generate_csrf_token(b"key", "The quick brown fox jumps over the lazy dog");
    assert_eq!(token, "f7bc83f430538424b13298e6aa6fb143ef4d59a14946175997479dbc2d1a3cd8");
}

#[test]
fn a_form_without_a_token_is_refused() {
    let secret = b"s";
    let token = generate_csrf_token(secret, "sess");
    assert!(check_form_csrf(secret, "sess", Some(&token)).is_ok());
    assert!(check_form_csrf(secret, "sess", None).is_err());
    assert!(check_form_csrf(secret, "sess", Some("nope")).is_err());
}

#[test]
fn an_unlock_cookie_opens_only_its_own_link() {
    let secret = b"k";
    let name = upload_link_cookie_name("tok");
    let cookie = link_unlock_cookie(&name, "tok", secret, false);
    let pair = cookie.split(';').next().unwrap().to_string();
    let header = format!("other=1; {pair}");
    assert!(has_valid_upload_link_cookie(Some(&header), "tok", secret));
    assert!(!has_valid_upload_link_cookie(Some(&header), "other", secret));
    assert!(!has_valid_upload_link_cookie(None, "tok", secret));
    assert!(has_link_unlock_cookie(Some(&header), &name, "tok", secret));
}
