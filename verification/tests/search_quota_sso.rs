use nanofile_service::error::AppError;
use nanofile_service::quota::{
    check_upload_fits, effective_quota, invalidate_user, release_repo_reservation, QuotaLedger,
};
use nanofile_service::search::{
    accessible_repo_ids, hit_parts, name_matches, search_dir_url, search_page, sort_search_results,
    walk_child_path, FileSearchResult,
};
use nanofile_service::sso::{
    check_link_valid, complete_step, generate_client_login_token, link_expiry, link_is_valid,
    open_outcome, poll_result, session_expiry, sso_link_requester, CompleteStep, OpenOutcome,
    PollResult, SsoTokenRow, SSO_COMPLETE_TIMEOUT_SECS,
};

fn hit(name: &str, is_dir: bool, oid: &str) -> FileSearchResult {
    FileSearchResult {
        repo_id: "r".to_string(),
        repo_name: "R".to_string(),
        name: name.to_string(),
        oid: oid.to_string(),
        last_modified: 0,
        mtime: 0,
        fullpath: format!("/{name}"),
        size: 0,
        is_dir,
        dir_url: String::new(),
        content_highlight: String::new(),
    }
}

#[test]
fn results_list_directories_first_then_by_name_stably() {
    let input = vec![hit("b", false, "1"), hit("a", false, "2"), hit("z", true, "3"), hit("a", false, "4")];
    let out = sort_search_results(&input);
    let order: Vec<&str> = out.iter().map(|h| h.oid.as_str()).collect();
    assert_eq!(order, vec!["3", "2", "4", "1"]);
}

#[test]
fn pages_of_results() {
    let input: Vec<FileSearchResult> = (0..5).map(|i| hit(&format!("f{i}"), false, "")).collect();
    let (page, total, more) = search_page(&input, 2, 2);
    assert_eq!(page.iter().map(|h| h.name.as_str()).collect::<Vec<_>>(), vec!["f2", "f3"]);
    assert_eq!((total, more), (5, true));
    let (page, _, more) = search_page(&input, 3, 2);
    assert_eq!((page.len(), more), (1, false));
    let (page, _, more) = search_page(&input, 9, 2);
    assert_eq!((page.len(), more), (0, false));
    let (page, _, _) = search_page(&input, 0, 0);
    assert_eq!(page.len(), 1);
}

#[test]
fn hit_paths_and_links() {
    assert_eq!(hit_parts("/a/b/c.txt"), ("c.txt".to_string(), "/a/b".to_string()));
    assert_eq!(hit_parts("/c.txt"), ("c.txt".to_string(), "/".to_string()));
    assert_eq!(hit_parts("//"), (String::new(), "/".to_string()));
    assert_eq!(search_dir_url("r1", "/a/b", true), "/libraries/r1/files/a/b");
    assert_eq!(search_dir_url("r1", "/a/b.txt", false), "/libraries/r1/files/a");
    assert_eq!(search_dir_url("r1", "b.txt", false), "/libraries/r1/files/");
    assert_eq!(walk_child_path("", "x"), "/x");
    assert_eq!(walk_child_path("/d", "x"), "/d/x");
    assert_eq!(walk_child_path("d", "x"), "/d/x");
    assert!(name_matches("Report.PDF", "port.p"));
    assert!(name_matches("ÉTÉ.txt", "été"));
    assert!(!name_matches("notes", "x"));
}

#[test]
fn searched_libraries_are_sorted_and_unique() {
    let member = vec!["c".to_string(), "a".to_string()];
    let owned = vec!["b".to_string(), "a".to_string()];
    assert_eq!(
        accessible_repo_ids(&member, &owned, None),
        vec!["a".to_string(), "b".to_string(), "c".to_string()]
    );
    assert_eq!(accessible_repo_ids(&member, &owned, Some("b")), vec!["b".to_string()]);
    assert!(accessible_repo_ids(&member, &owned, Some("z")).is_empty());
}

#[test]
fn quota_checks() {
    assert_eq!(effective_quota(Some(0), 100), None);
    assert_eq!(effective_quota(Some(-5), 100), None);
    assert_eq!(effective_quota(Some(50), 100), Some(50));
    assert_eq!(effective_quota(None, 100), Some(100));
    assert_eq!(effective_quota(None, 0), None);
    assert_eq!(effective_quota(None, u64::MAX), None);
    assert_eq!(check_upload_fits(Some(100), 60, 40), Ok(()));
    assert_eq!(check_upload_fits(Some(100), 60, 41), Err(AppError::QuotaExceeded));
    assert_eq!(check_upload_fits(Some(100), 160, -10), Ok(()));
    assert_eq!(check_upload_fits(None, 160, 10), Ok(()));
}

#[test]
fn the_ledger_reserves_within_quota_and_releases_per_library() {
    let mut l = QuotaLedger::new();
    assert_eq!(l.cached_usage(1, 1000), None);
    l.store_usage(1, 70, 1000);
    assert_eq!(l.cached_usage(1, 1200), Some(70));
    assert_eq!(l.cached_usage(1, 1500), None);
    assert_eq!(l.cached_usage(2, 1000), None);
    invalidate_user(&mut l, 1);
    assert_eq!(l.cached_usage(1, 1000), None);

    assert_eq!(l.reserve_if_fits(1, "r1", 20, 70, 100), Ok(()));
    assert_eq!(l.reserve_if_fits(1, "r2", 10, 70, 100), Ok(()));
    assert_eq!(l.reserve_if_fits(1, "r1", 1, 70, 100), Err(AppError::QuotaExceeded));
    assert_eq!(l.reserve_if_fits(2, "r1", 30, 70, 100), Ok(()));
    assert_eq!(release_repo_reservation(&mut l, 1, "r1"), 20);
    assert_eq!(l.release_repo(1, "r1"), 0);
    assert_eq!(l.reserve_if_fits(1, "r1", 20, 70, 100), Ok(()));
    assert_eq!(l.release_repo(1, "r2"), 10);
}

fn link(status: &str, accessed_at: Option<i64>, expires_at: Option<i64>) -> SsoTokenRow {
    SsoTokenRow {
        token: "t".to_string(),
        platform: Some("linux".to_string()),
        device_id: Some("d1".to_string()),
        device_name: Some("laptop".to_string()),
        client_version: Some("9.0".to_string()),
        status: status.to_string(),
        username: Some("alice@x".to_string()),
        api_token: Some("tok".to_string()),
        created_at: 0,
        expires_at,
        accessed_at,
    }
}

#[test]
fn an_sso_link_is_valid_within_its_window() {
    assert!(link_is_valid(&link("waiting", Some(100), Some(1000)), 100 + SSO_COMPLETE_TIMEOUT_SECS - 1));
    assert_eq!(
        check_link_valid(&link("waiting", Some(100), Some(1000)), 100 + SSO_COMPLETE_TIMEOUT_SECS),
        Err(AppError::BadRequest("Login timeout, please click the login button on the client again".to_string()))
    );
    assert_eq!(
        check_link_valid(&link("waiting", None, None), 5),
        Err(AppError::NotFound("Invalid link, please click the login button on the client again".to_string()))
    );
    assert_eq!(
        check_link_valid(&link("waiting", Some(100), Some(150)), 151),
        Err(AppError::NotFound(
            "This link has expired, please click the login button on the client again".to_string()
        ))
    );
}

#[test]
fn opening_polling_and_completing() {
    assert_eq!(open_outcome(&link("pending", None, Some(10)), 11), OpenOutcome::Expired);
    assert_eq!(open_outcome(&link("pending", None, Some(10)), 5), OpenOutcome::FirstVisit);
    assert_eq!(open_outcome(&link("pending", Some(1), None), 5), OpenOutcome::AlreadyVisited);
    assert_eq!(
        poll_result(&link("waiting", Some(1), None), 5),
        Ok(PollResult::Status("waiting".to_string()))
    );
    assert_eq!(
        poll_result(&link("success", Some(1), None), 5),
        Ok(PollResult::Success { username: "alice@x".to_string(), api_token: "tok".to_string() })
    );
    assert_eq!(
        poll_result(&link("success", Some(1), None), 1 + SSO_COMPLETE_TIMEOUT_SECS),
        Ok(PollResult::Status("error".to_string()))
    );
    assert_eq!(
        poll_result(&link("success", Some(1), Some(2)), 3),
        Err(AppError::NotFound("token expired".to_string()))
    );
    assert_eq!(complete_step(&link("waiting", Some(1), None), 5), Ok(CompleteStep::Mint));
    assert_eq!(complete_step(&link("success", Some(1), None), 5), Ok(CompleteStep::AlreadyDone));
    assert!(complete_step(&link("pending", Some(1), None), 5).is_err());
    assert_eq!(session_expiry(10, 2), 10 + 2 * 86400);
    assert_eq!(link_expiry(10), 3610);
    assert_eq!(sso_link_requester(&link("x", None, None)), Some("laptop (linux) v9.0".to_string()));
    let mut bare = link("x", None, None);
    bare.device_name = None;
    bare.platform = Some(String::new());
    bare.client_version = None;
    assert_eq!(sso_link_requester(&bare), None);
    let t = generate_client_login_token();
    assert!(!t.is_empty());
}
