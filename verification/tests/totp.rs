use nanofile_service::error::AppError;
use nanofile_service::totp::TotpManager;
use totp_rs::{Builder, Secret};

const SECRET: &str = "OBWGC2LOFVZXI4TJNZTS243FMNZGK5BNGEZDGNBV";

#[test]
fn a_generated_secret_is_base32_of_twenty_bytes() {
    let s = TotpManager::generate_secret();
    assert_eq!(s.len(), 32);
    assert!(s.chars().all(|c| c.is_ascii_uppercase() || ('2'..='7').contains(&c)));
    assert_eq!(Secret::try_from_base32(&s).unwrap().as_bytes().len(), 20);
}

#[test]
fn a_generator_checks_the_current_code() {
    let code = TotpManager::create_totp(SECRET, "alice@example.com", "Nanofile").expect("valid");
    let reference = Builder::new()
        .with_secret(Secret::try_from_base32(SECRET).unwrap())
        .build()
        .unwrap();
    let now = reference.generate_current().to_string();
    assert!(TotpManager::verify_code(&code, &now).is_some());
    assert_eq!(TotpManager::verify_code(&code, "abcdef"), None);
    assert_eq!(TotpManager::verify_code(&code, &format!("{now}0")), None, "seven characters");
    assert_eq!(TotpManager::verify_code(&code, &format!("+{}", &now[1..])), None, "a sign is not a digit");
    assert_eq!(TotpManager::verify_code(&code, ""), None);
}

#[test]
fn bad_secrets_and_names_are_refused() {
    assert_eq!(
        TotpManager::create_totp("not base32!", "a", "Nanofile").err(),
        Some(AppError::Internal("Could not decode base32 secret.".to_string()))
    );
    assert!(matches!(TotpManager::create_totp("ORSXG5A", "a", "N"), Err(AppError::Internal(_))));
    assert!(TotpManager::create_totp(SECRET, "a:b", "N").is_err());
    assert!(TotpManager::create_totp(SECRET, "a", "N:x").is_err());
}

#[test]
fn the_url_names_issuer_and_account() {
    let code = TotpManager::create_totp(SECRET, "alice@example.com", "Nanofile").expect("valid");
    let url = TotpManager::get_otpauth_url(&code);
    assert!(url.starts_with("otpauth://totp/Nanofile:alice%40example.com?secret="));
    assert!(url.contains("issuer=Nanofile"));
}

#[test]
fn a_code_is_accepted_once_per_step() {
    assert_eq!(TotpManager::consume_step(Some(100), None), Some(100));
    assert_eq!(TotpManager::consume_step(Some(100), Some(99)), Some(100));
    assert_eq!(TotpManager::consume_step(Some(100), Some(100)), None);
    assert_eq!(TotpManager::consume_step(Some(99), Some(100)), None);
    assert_eq!(TotpManager::consume_step(None, None), None);
}
