use nanofile_service::api_key::{
    bindings_of, check_bindings, mint_key, normalize_name, update_scope, resolve_expiry, view_of, ApiKeyRow, KeyExpiry, MAX_NAME_LEN,
    SECONDS_PER_DAY,
};
use nanofile_service::error::AppError;

const NOW: i64 = 1_700_000_000;

#[test]
fn expiry_respects_the_configured_bound() {
    let unbounded = 0;
    assert_eq!(resolve_expiry(unbounded, KeyExpiry::Never, NOW).unwrap(), None);
    assert!(resolve_expiry(unbounded, KeyExpiry::InDays(7), NOW).unwrap().is_some());
    assert!(resolve_expiry(unbounded, KeyExpiry::InDays(0), NOW).is_err());
    assert!(resolve_expiry(unbounded, KeyExpiry::At(NOW - 1), NOW).is_err());

    let bounded = 30;
    assert!(resolve_expiry(bounded, KeyExpiry::Never, NOW).is_err());
    assert!(resolve_expiry(bounded, KeyExpiry::InDays(30), NOW).is_ok());
    assert!(resolve_expiry(bounded, KeyExpiry::InDays(31), NOW).is_err());
    assert!(resolve_expiry(bounded, KeyExpiry::At(NOW + 31 * SECONDS_PER_DAY), NOW).is_err());
}

#[test]
fn names_are_trimmed_and_defaulted() {
    assert_eq!(normalize_name(None), "API key");
    assert_eq!(normalize_name(Some("   ".to_string())), "API key");
    assert_eq!(normalize_name(Some("  ci  ".to_string())), "ci");
    assert_eq!(normalize_name(Some("x".repeat(400))).len(), MAX_NAME_LEN);
}

#[test]
fn expiry_values_and_messages() {
    assert_eq!(resolve_expiry(0, KeyExpiry::InDays(7), NOW), Ok(Some(NOW + 7 * 86400)));
    assert_eq!(resolve_expiry(30, KeyExpiry::At(NOW + 10), NOW), Ok(Some(NOW + 10)));
    assert_eq!(
        resolve_expiry(30, KeyExpiry::Never, NOW),
        Err(AppError::BadRequest(
            "keys may not be created without an expiry; the maximum lifetime is 30 days".to_string()
        ))
    );
    assert_eq!(
        resolve_expiry(30, KeyExpiry::InDays(31), NOW),
        Err(AppError::BadRequest("expires_in_days exceeds the maximum of 30 days".to_string()))
    );
    assert_eq!(
        resolve_expiry(0, KeyExpiry::At(NOW), NOW),
        Err(AppError::BadRequest("expires_at must be in the future".to_string()))
    );
}

#[test]
fn library_bindings_are_checked() {
    assert_eq!(check_bindings(true, &[]).unwrap().len(), 0);
    assert!(check_bindings(true, &[("a".to_string(), "r".to_string())]).is_err());
    assert!(check_bindings(false, &[]).is_err());
    let ok = check_bindings(
        false,
        &[("a".to_string(), "r".to_string()), ("b".to_string(), "rw".to_string())],
    )
    .unwrap();
    assert_eq!(ok.len(), 2);
    assert_eq!(ok[1].repo_id, "b");
    assert_eq!(ok[1].permission, "rw");
    assert_eq!(
        check_bindings(false, &[("a".to_string(), "r".to_string()), ("a".to_string(), "rw".to_string())])
            .unwrap_err(),
        AppError::BadRequest("duplicate library a".to_string())
    );
    assert_eq!(
        check_bindings(false, &[("a".to_string(), "x".to_string())]).unwrap_err(),
        AppError::BadRequest("permission for a must be \"r\" or \"rw\"".to_string())
    );
}

#[test]
fn a_view_lists_the_stored_capabilities_leniently() {
    let row = ApiKeyRow {
        id: 3,
        name: "ci".to_string(),
        key_prefix: Some("abcd1234".to_string()),
        capabilities: " file.read, ,future.cap ,".to_string(),
        all_repos: true,
        created_at: 1,
        expires_at: None,
        last_used_at: Some(5),
    };
    let v = view_of(row, vec![]);
    assert_eq!(v.capabilities, vec!["file.read".to_string(), "future.cap".to_string()]);
    assert_eq!(v.id, 3);
    assert_eq!(v.last_used_at, Some(5));
}

fn pair(repo: &str, perm: &str) -> (String, String) {
    (repo.to_string(), perm.to_string())
}

#[test]
fn an_update_is_validated_in_the_scope_it_leaves() {
    let current = vec![pair("r1", "r")];
    // Nothing requested: the stored scope stays.
    assert_eq!(update_scope(None, None, false, current.clone()), (false, current.clone()));
    // Widening to every library without naming bindings drops them.
    assert_eq!(update_scope(Some(true), None, false, current.clone()), (true, vec![]));
    // A key that already covers every library keeps covering it.
    assert_eq!(update_scope(None, None, true, current.clone()), (true, vec![]));
    // Requested bindings replace the stored ones, even when widening.
    assert_eq!(
        update_scope(Some(true), Some(vec![pair("r2", "rw")]), false, current.clone()),
        (true, vec![pair("r2", "rw")])
    );
    assert_eq!(update_scope(Some(false), None, true, current.clone()), (false, current));
}

#[test]
fn each_key_lists_its_own_bindings_in_order() {
    let all = vec![
        (1, "a".to_string(), "r".to_string()),
        (2, "b".to_string(), "rw".to_string()),
        (1, "c".to_string(), "rw".to_string()),
    ];
    assert_eq!(bindings_of(&all, 1), vec![pair("a", "r"), pair("c", "rw")]);
    assert_eq!(bindings_of(&all, 2), vec![pair("b", "rw")]);
    assert!(bindings_of(&all, 3).is_empty());
}

#[test]
fn a_new_key_keeps_its_prefix_and_stores_only_a_hash() {
    let m = mint_key();
    assert_eq!(m.secret.len(), 40);
    assert_eq!(m.key_prefix, m.secret[..8]);
    assert_eq!(m.key_hash, nanofile_service::token::hash_token(&m.secret));
    assert_ne!(m.key_hash, m.secret);
}
