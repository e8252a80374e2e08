use nanofile_service::password::{
    dummy_password_hash, hash_password, needs_rehash, validate_password, verify_password, SALT_LEN,
};

fn pbkdf2_hash(password: &[u8], salt: &[u8], iterations: u32) -> [u8; 32] {
    let mut key = [0u8; 32];
    pbkdf2::pbkdf2_hmac::<sha2::Sha256>(password, salt, iterations, &mut key);
    key
}

#[test]
fn test_validate_password_ascii_meets_min_length() {
    assert!(validate_password("abcd1234", 8, false).is_ok());
}

#[test]
fn test_validate_password_ascii_below_min_length() {
    assert!(validate_password("abc123", 8, false).is_err());
}

#[test]
fn test_validate_password_unicode_meets_min_length() {
    assert!(validate_password("密码测试", 4, false).is_ok());
}

#[test]
fn test_validate_password_unicode_byte_count_larger_than_char_count() {
    assert!(validate_password("密码测a", 4, false).is_ok());
    assert!(validate_password("密码测a", 5, false).is_err());
}

#[test]
fn test_validate_password_emoji_count() {
    assert!(validate_password("😀🎉🚀💡", 4, false).is_ok());
}

#[test]
fn test_validate_password_strong_requires_letter_and_digit() {
    assert!(validate_password("abcdefgh", 8, true).is_err());
    assert!(validate_password("12345678", 8, true).is_err());
    assert!(validate_password("abcd1234", 8, true).is_ok());
}

#[test]
fn test_hash_and_verify_roundtrip() {
    let password = "test_password_123";
    let hash = hash_password(password, 1000);
    assert!(verify_password(password, &hash, 1000));
    assert!(!verify_password("wrong_password", &hash, 1000));
}

#[test]
fn test_verify_invalid_hash_format() {
    assert!(!verify_password("password", "invalid-hash", 1000));
    assert!(!verify_password("password", "not:hex:hash", 1000));
    assert!(!verify_password("password", "pbkdf2_sha256$0$aa$bb", 1000));
    assert!(!verify_password("password", "pbkdf2_sha256$99999999999$aa$bb", 1000));
    assert!(!verify_password("password", "pbkdf2_sha256$abc$aa$bb", 1000));
    assert!(!verify_password("password", "pbkdf2_sha256$1000$zz$bb", 1000));
}

#[test]
fn test_embedded_cost_survives_config_change() {
    let password = "test";
    let hash_1k = hash_password(password, 1000);
    assert!(verify_password(password, &hash_1k, 1000));
    assert!(
        verify_password(password, &hash_1k, 2000),
        "the stored cost must win over the current setting"
    );
    assert!(hash_1k.starts_with("pbkdf2_sha256$1000$"));
}

#[test]
fn test_legacy_hash_still_verifies() {
    let password = "legacy_password";
    let salt = [7u8; SALT_LEN];
    let legacy = format!(
        "{}:{}",
        hex::encode(salt),
        hex::encode(pbkdf2_hash(password.as_bytes(), &salt, 1000))
    );
    assert!(verify_password(password, &legacy, 1000));
    assert!(!verify_password(password, &legacy, 2000));
    assert!(!verify_password("wrong", &legacy, 1000));
}

#[test]
fn test_needs_rehash() {
    let modern = hash_password("pw", 1000);
    assert!(!needs_rehash(&modern, 1000));
    assert!(needs_rehash(&modern, 2000), "cost changed");
    let salt = [1u8; SALT_LEN];
    let legacy = format!(
        "{}:{}",
        hex::encode(salt),
        hex::encode(pbkdf2_hash(b"pw", &salt, 1000))
    );
    assert!(needs_rehash(&legacy, 1000));
    assert!(!needs_rehash("garbage", 1000));
}

#[test]
fn test_dummy_hash_uses_current_cost() {
    let dummy = dummy_password_hash(1000);
    assert!(dummy.starts_with("pbkdf2_sha256$1000$"));
    assert!(!verify_password("anything", &dummy, 1000));
    assert!(!needs_rehash(&dummy, 1000));
    assert!(needs_rehash(&dummy, 2000));
}

#[test]
fn a_hash_carries_its_cost_salt_and_digest() {
    let h = hash_password("pw", 1200);
    let parts: Vec<&str> = h.split('$').collect();
    assert_eq!(parts.len(), 4);
    assert_eq!(parts[0], "pbkdf2_sha256");
    assert_eq!(parts[1], "1200");
    assert_eq!(parts[2].len(), 32);
    let salt = hex::decode(parts[2]).unwrap();
    assert_eq!(parts[3], hex::encode(pbkdf2_hash(b"pw", &salt, 1200)));
}

#[test]
fn weak_password_messages_say_what_is_missing() {
    assert_eq!(
        validate_password("abc", 8, false).unwrap_err(),
        "Password must be at least 8 characters long."
    );
    assert!(validate_password("", 0, false).is_ok());
}
