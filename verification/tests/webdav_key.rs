use nanofile_service::error::AppError;
use nanofile_service::webdav_key::{
    check_key_creation, check_key_deletion, has_repo_access, hash_webdav_key, is_owner_or_admin,
    key_list_scope, key_name, mint_webdav_key, KeyListScope,
};
use nanofile_service::token::hash_token;

#[test]
fn the_key_hash_is_sha256_in_hex() {
    assert_eq!(
        hash_webdav_key("some-token-value"),
        "13e1de78ebfec41be58f1ca5281ed4c604bee839c625eac2243f78b43fe594a0"
    );
}

#[test]
fn a_member_of_any_permission_or_the_owner_has_access() {
    assert!(has_repo_access(&Some((7, None)), 7));
    assert!(has_repo_access(&Some((1, Some("r".to_string()))), 7));
    assert!(!has_repo_access(&Some((1, None)), 7));
    assert!(!has_repo_access(&None, 7));
    assert!(is_owner_or_admin(Some(7), None, 7));
    assert!(is_owner_or_admin(Some(1), Some(true), 7));
    assert!(!is_owner_or_admin(Some(1), Some(false), 7));
    assert!(!is_owner_or_admin(None, None, 7));
}

#[test]
fn key_creation_checks_in_order() {
    assert_eq!(
        check_key_creation(None, true),
        Err(AppError::NotFound("Repository not found".to_string()))
    );
    assert_eq!(
        check_key_creation(Some(true), true),
        Err(AppError::BadRequest("WebDAV is not supported for encrypted libraries".to_string()))
    );
    assert_eq!(check_key_creation(Some(false), false), Err(AppError::Forbidden));
    assert_eq!(check_key_creation(Some(false), true), Ok(()));
}

#[test]
fn minted_keys_are_named_and_hashed() {
    assert_eq!(key_name("  laptop "), "laptop");
    assert_eq!(key_name("   "), "default");
    let m = mint_webdav_key("");
    assert_eq!(m.name, "default");
    assert_eq!(m.key.len(), 40);
    assert_eq!(m.key_hash, hash_token(&m.key));
}

#[test]
fn listing_and_deleting_follow_ownership() {
    assert_eq!(key_list_scope(true, true, true), Ok(KeyListScope::All));
    assert_eq!(key_list_scope(true, true, false), Ok(KeyListScope::Own));
    assert_eq!(key_list_scope(true, false, true), Err(AppError::Forbidden));
    assert!(key_list_scope(false, true, true).is_err());
    assert_eq!(check_key_deletion(Some(7), 7, false), Ok(()));
    assert_eq!(check_key_deletion(Some(8), 7, true), Ok(()));
    assert_eq!(check_key_deletion(Some(8), 7, false), Err(AppError::Forbidden));
    assert_eq!(
        check_key_deletion(None, 7, true),
        Err(AppError::NotFound("WebDAV key not found".to_string()))
    );
}
