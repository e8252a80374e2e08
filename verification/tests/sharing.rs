use nanofile_service::error::AppError;
use nanofile_service::sharing::{
    check_link_owner, check_link_resolves, check_shareable, classify_link_failure,
    expiry_after_days, link_password_ok, own_links, share_entry_type, share_link_info,
    share_link_url, updated_link_info, LinkCreatorCache, LinkFailure, ShareLinkRow,
    LINK_CREATOR_CACHE_TTL_MS, LINK_EXPIRED, LINK_NOT_FOUND, UPLOAD_LINK_EXPIRED,
};

#[test]
fn a_link_failure_is_told_apart_from_a_real_error() {
    assert_eq!(
        classify_link_failure(&AppError::NotFound(LINK_EXPIRED.into())),
        Some(LinkFailure::Expired)
    );
    assert_eq!(
        classify_link_failure(&AppError::NotFound(UPLOAD_LINK_EXPIRED.into())),
        Some(LinkFailure::Expired)
    );
    assert_eq!(
        classify_link_failure(&AppError::NotFound("Repo not found".into())),
        Some(LinkFailure::Unknown)
    );
    assert_eq!(
        classify_link_failure(&AppError::Internal("db down".into())),
        None
    );
    assert_eq!(classify_link_failure(&AppError::Forbidden), None);
}

fn row(creator_id: i32, s_type: &str, token: &str) -> ShareLinkRow {
    ShareLinkRow {
        id: 1,
        repo_id: "r1".to_string(),
        creator_id,
        path: "/docs".to_string(),
        token: token.to_string(),
        password: None,
        expires_at: Some(500),
        created_at: 100,
        s_type: s_type.to_string(),
        view_cnt: 3,
        description: Some("notes".to_string()),
    }
}

#[test]
fn link_urls_name_the_entry_type() {
    assert_eq!(share_link_url("d", "tok", "https://files.example.com//"), "https://files.example.com/d/tok/");
    assert_eq!(share_link_url("f", "tok", "https://files.example.com"), "https://files.example.com/f/tok/");
    let info = share_link_info(&row(7, "d", "abc"), "https://h");
    assert_eq!(info.link, "https://h/d/abc/");
    assert!(!info.has_password);
    assert_eq!(info.expire_at, Some(500));
    assert_eq!(info.view_cnt, 3);
}

#[test]
fn only_the_callers_own_links_are_listed() {
    let rows = vec![row(7, "f", "a"), row(8, "f", "b"), row(7, "d", "c")];
    let listed = own_links(&rows, 7, "https://h");
    let tokens: Vec<&str> = listed.iter().map(|i| i.token.as_str()).collect();
    assert_eq!(tokens, vec!["a", "c"]);
}

#[test]
fn entry_types_and_expiry() {
    assert_eq!(share_entry_type("/", None), "d");
    assert_eq!(share_entry_type("", Some(32768)), "d");
    assert_eq!(share_entry_type("/a", Some(16384)), "d");
    assert_eq!(share_entry_type("/a", Some(33188)), "f");
    assert_eq!(share_entry_type("/a", None), "f");
    assert_eq!(expiry_after_days(1000, 2), 1000 + 2 * 86400);
}

#[test]
fn resolution_reports_expiry_first() {
    assert_eq!(
        check_link_resolves(Some(10), 11, false, LINK_NOT_FOUND, LINK_EXPIRED),
        Err(AppError::NotFound(LINK_EXPIRED.to_string()))
    );
    assert_eq!(
        check_link_resolves(Some(10), 10, false, LINK_NOT_FOUND, LINK_EXPIRED),
        Err(AppError::NotFound(LINK_NOT_FOUND.to_string()))
    );
    assert_eq!(check_link_resolves(None, 10, true, LINK_NOT_FOUND, LINK_EXPIRED), Ok(()));
    assert!(check_link_owner(1, 1).is_ok());
    assert_eq!(
        check_link_owner(1, 2),
        Err(AppError::NotFound("Share link not found".to_string()))
    );
    assert!(check_shareable(false).is_ok());
    assert!(matches!(check_shareable(true), Err(AppError::BadRequest(_))));
}

#[test]
fn a_link_without_password_is_open() {
    assert!(link_password_ok(None, None, 1000));
    assert!(!link_password_ok(Some("pbkdf2_sha256$1000$c2FsdA$x"), None, 1000));
    assert!(!link_password_ok(Some("not a hash"), Some("pw"), 1000));
}

#[test]
fn an_update_changes_only_what_it_sets() {
    let l = row(7, "f", "abc");
    let same = updated_link_info(&l, None, None, None, "https://h");
    assert_eq!(same, share_link_info(&l, "https://h"));
    let changed = updated_link_info(
        &l,
        Some(Some("hash".to_string())),
        Some(Some(900)),
        Some(Some("new".to_string())),
        "https://h",
    );
    assert!(changed.has_password);
    assert_eq!(changed.expire_at, Some(900));
    assert_eq!(changed.description, Some("new".to_string()));
}

#[test]
fn the_creator_cache_answers_what_it_was_told_while_fresh() {
    let mut cache = LinkCreatorCache::new();
    assert_eq!(cache.lookup(7, "r1", false, 1000), None);
    cache.store(7, "r1", false, true, 1000);
    assert_eq!(cache.lookup(7, "r1", false, 1000), Some(true));
    assert_eq!(cache.lookup(7, "r1", true, 1000), None);
    assert_eq!(cache.lookup(7, "r1", false, 1000 + LINK_CREATOR_CACHE_TTL_MS), None);
    cache.store(7, "r1", false, false, 2000);
    assert_eq!(cache.lookup(7, "r1", false, 2000), Some(false));
    cache.store(7, "r2", true, true, 2000);
    cache.store(8, "r1", true, true, 2000);
    cache.invalidate(7, Some("r1"));
    assert_eq!(cache.lookup(7, "r1", false, 2000), None);
    assert_eq!(cache.lookup(7, "r2", true, 2000), Some(true));
    cache.invalidate(7, None);
    assert_eq!(cache.lookup(7, "r2", true, 2000), None);
    assert_eq!(cache.lookup(8, "r1", true, 2000), Some(true));
}
