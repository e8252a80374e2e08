use nanofile_service::dirent::DirEntry;
use nanofile_service::error::AppError;
use nanofile_service::group::{group_admins, is_admin_role, member_count, user_search_pattern, GroupMemberRow};
use nanofile_service::history::{
    history_changes, restore_description, restore_entry, tree_entry_kind, FileChange, TreeEntryKind,
    VersionWalk, WalkStep,
};
use nanofile_service::invitation::{bound_email, used_by_email};
use nanofile_service::password_reset::{
    check_reset, generate_reset_token, hash_token, reset_token_expiry, reset_token_usable, reset_url,
    RESET_TOKEN_TTL_SECONDS,
};
use nanofile_service::rate_limit::repo_password_key;
use nanofile_service::registration::{check_registration, InvitationCodeState};
use nanofile_service::sdoc::comment_response;
use nanofile_service::sync::{filter_dir_ids, folder_perm, FsIdWalk};
use nanofile_service::wiki::{
    check_new_page, check_page_lock, gen_page_id, is_hidden_wiki_path, move_insert_position,
    new_page_markdown, page_dir, page_file_name, public_url, validate_publish_url, validate_wiki_name,
};

fn bad(m: &str) -> AppError {
    AppError::BadRequest(m.to_string())
}

#[test]
fn wiki_names_and_urls() {
    assert_eq!(validate_wiki_name("  Team  "), Ok("Team".to_string()));
    assert_eq!(validate_wiki_name("  "), Err(bad("invalid wiki name")));
    assert_eq!(validate_wiki_name("a/b"), Err(bad("invalid wiki name")));
    assert_eq!(validate_wiki_name(&"é".repeat(128)), Err(bad("invalid wiki name")));
    assert!(validate_wiki_name(&"é".repeat(127)).is_ok());
    assert_eq!(validate_publish_url(" my-wiki "), Ok("my-wiki".to_string()));
    assert_eq!(
        validate_publish_url("abc"),
        Err(bad("The custom part of URL should have 5-30 characters."))
    );
    assert_eq!(validate_publish_url("my_wiki"), Err(bad("URL is invalid")));
    assert_eq!(public_url(Some("my-wiki")), "/wiki/publish/my-wiki");
    assert_eq!(public_url(None), "");
}

#[test]
fn wiki_internals_are_hidden() {
    assert!(is_hidden_wiki_path("/_Internal"));
    assert!(is_hidden_wiki_path("//_Internal/Wiki/index.json"));
    assert!(is_hidden_wiki_path("wiki-pages/x/a.md"));
    assert!(!is_hidden_wiki_path("/_Internals"));
    assert!(!is_hidden_wiki_path("/docs/wiki-pages"));
}

#[test]
fn wiki_pages() {
    let id = gen_page_id();
    assert_eq!(id.chars().count(), 4);
    assert!(id.chars().all(|c| c.is_ascii_alphanumeric()));
    assert_eq!(check_new_page(" Intro ", None), Ok("Intro".to_string()));
    assert_eq!(check_new_page(" ", None), Err(bad("page_name invalid")));
    assert_eq!(check_new_page("a\\b", Some("above")), Err(bad("page_name invalid")));
    assert_eq!(check_new_page("a", Some("")), Ok("a".to_string()));
    assert_eq!(check_new_page("a", Some("left")), Err(bad("insert_position invalid")));
    assert_eq!(move_insert_position("move_into"), Ok("inner"));
    assert_eq!(move_insert_position("move_above"), Ok("above"));
    assert_eq!(move_insert_position("move_below"), Ok("below"));
    assert_eq!(move_insert_position("x"), Err(bad("Invalid move_position value")));
    assert_eq!(page_dir("u-1"), "/wiki-pages/u-1");
    assert_eq!(page_file_name("Intro"), "Intro.md");
    assert_eq!(new_page_markdown("Intro"), "# Intro\n\n");
    assert_eq!(check_page_lock(None, 1, "/p.md"), Ok(()));
    assert_eq!(check_page_lock(Some(1), 1, "/p.md"), Ok(()));
    assert_eq!(check_page_lock(Some(2), 1, "/p.md"), Err(AppError::Locked("/p.md".to_string())));
}

fn fc(path: &str, size: i64) -> FileChange {
    FileChange { path: path.to_string(), size }
}

#[test]
fn a_commits_changes_against_its_parent() {
    let current = vec![fc("/a", 1), fc("/b", 2), fc("/c", 3)];
    let parent = vec![fc("/b", 2), fc("/c", 4), fc("/d", 5)];
    let r = history_changes(&current, Some(&parent));
    assert_eq!(r.new_files, vec![fc("/a", 1)]);
    assert_eq!(r.modified_files, vec![fc("/c", 3)]);
    assert_eq!(r.deleted_files, vec![fc("/d", 5)]);
    assert!(r.renamed_files.is_empty() && r.new_dirs.is_empty() && r.deleted_dirs.is_empty());
    let first = history_changes(&current, None);
    assert_eq!(first.new_files, current);
    assert!(first.deleted_files.is_empty());
    assert_eq!(tree_entry_kind(32768, 0), TreeEntryKind::File);
    assert_eq!(tree_entry_kind(16384, 0), TreeEntryKind::Dir);
    assert_eq!(tree_entry_kind(16384, 5), TreeEntryKind::File);
    assert_eq!(tree_entry_kind(40960, 0), TreeEntryKind::Other);
}

#[test]
fn the_version_walk_records_changes_until_its_limit() {
    let mut w = VersionWalk::new(2);
    assert_eq!(w.step(Some("v3")), WalkStep::Record);
    assert_eq!(w.step(Some("v3")), WalkStep::Skip);
    assert_eq!(w.step(Some("v2")), WalkStep::Record);
    assert_eq!(w.step(Some("v1")), WalkStep::Stop);
    let mut w = VersionWalk::new(5);
    assert_eq!(w.step(None), WalkStep::Stop);
}

#[test]
fn a_restore_points_the_entry_at_the_old_version() {
    let mut d = vec![DirEntry {
        id: "new".to_string(),
        mode: 33188,
        modifier: "a@x".to_string(),
        mtime: 1,
        name: "f.txt".to_string(),
        size: 9,
    }];
    restore_entry(&mut d, "f.txt", "old", 4, 100, "b@x");
    assert_eq!((d[0].id.as_str(), d[0].size, d[0].mtime, d[0].modifier.as_str()), ("old", 4, 100, "b@x"));
    restore_entry(&mut d, "missing", "zzz", 1, 1, "c@x");
    assert_eq!(d[0].id, "old");
    assert_eq!(restore_description("f.txt", "abc"), "Reverted f.txt to version from abc");
}

#[test]
fn reset_links() {
    let (raw, hash) = generate_reset_token();
    assert_eq!(raw.len(), 64);
    assert_eq!(hash, hash_token(&raw));
    assert_eq!(
        hash_token("some-token-value"),
        "13e1de78ebfec41be58f1ca5281ed4c604bee839c625eac2243f78b43fe594a0"
    );
    assert_eq!(reset_url("https://h/", "tok"), "https://h/accounts/password/reset/tok/");
    assert!(reset_token_usable(false, 11, 10));
    assert!(!reset_token_usable(false, 10, 10));
    assert!(!reset_token_usable(true, 11, 10));
    assert_eq!(reset_token_expiry(5), 5 + RESET_TOKEN_TTL_SECONDS);
    assert_eq!(check_reset(false, "x", 1, false), Err(bad("This reset link is invalid or has expired.")));
    assert_eq!(check_reset(true, "abc", 4, false), Err(bad("Password must be at least 4 characters long.")));
    assert_eq!(
        check_reset(true, "abcdefgh", 4, true),
        Err(bad("Password must contain at least one letter and one digit."))
    );
    assert_eq!(check_reset(true, "abcd1234", 4, true), Ok(()));
}

#[test]
fn registrations_are_checked_in_order() {
    let free = InvitationCodeState { used: false, bound_email: None };
    let used = InvitationCodeState { used: true, bound_email: None };
    let bound = InvitationCodeState { used: false, bound_email: Some("Ann@Example.com".to_string()) };
    assert_eq!(check_registration(None, "a@x", false, "pw123456", 6, false), Err(bad("Invalid invitation code.")));
    assert_eq!(
        check_registration(Some(&used), "a@x", false, "pw123456", 6, false),
        Err(bad("This invitation code has already been used."))
    );
    assert_eq!(
        check_registration(Some(&bound), "bob@example.com", false, "pw123456", 6, false),
        Err(bad("This invitation code is bound to a different email address."))
    );
    assert_eq!(check_registration(Some(&bound), "ann@example.com", false, "pw123456", 6, false), Ok(()));
    assert_eq!(
        check_registration(Some(&free), "no-at-sign", false, "pw123456", 6, false),
        Err(bad("Invalid email address."))
    );
    assert_eq!(
        check_registration(Some(&free), "a@x", true, "pw123456", 6, false),
        Err(bad("Invalid invitation code."))
    );
    assert_eq!(
        check_registration(Some(&free), "a@x", false, "pw", 6, false),
        Err(bad("Password must be at least 6 characters long."))
    );
}

#[test]
fn invitations_and_keys() {
    assert_eq!(bound_email(Some("  a@x ")), Some("a@x".to_string()));
    assert_eq!(bound_email(Some("  ")), None);
    assert_eq!(bound_email(None), None);
    let emails = vec![(1, "a@x".to_string()), (2, "b@x".to_string())];
    assert_eq!(used_by_email(Some(2), &emails), Some("b@x".to_string()));
    assert_eq!(used_by_email(Some(3), &emails), None);
    assert_eq!(used_by_email(None, &emails), None);
    assert_eq!(repo_password_key(-7, "r1"), "repo_pw:-7:r1");
    assert_eq!(repo_password_key(42, "r1"), "repo_pw:42:r1");
    let c = comment_response(1, "hi".to_string(), Some(false), 5, None);
    assert_eq!((c.id, c.content.as_str(), c.user_email.as_str()), (1, "hi", ""));
}

#[test]
fn group_administrators() {
    assert!(is_admin_role("Owner"));
    assert!(is_admin_role("ADMIN"));
    assert!(!is_admin_role("member"));
    let row = |g: i32, u: i32, role: &str| GroupMemberRow { group_id: g, user_id: u, role: role.to_string() };
    let members = vec![row(1, 10, "admin"), row(1, 11, "member"), row(2, 12, "owner"), row(1, 13, "owner")];
    let emails = vec![(10, "a@x".to_string()), (13, "c@x".to_string())];
    assert_eq!(
        group_admins(1, &members, &emails, Some("a@x".to_string())),
        vec!["a@x".to_string(), "c@x".to_string()]
    );
    assert_eq!(
        group_admins(1, &members, &emails, Some("z@x".to_string())),
        vec!["a@x".to_string(), "c@x".to_string(), "z@x".to_string()]
    );
    assert_eq!(member_count(1, &members), 3);
    assert_eq!(user_search_pattern("ann"), "%ann%");
}

#[test]
fn sync_folder_permissions_and_walks() {
    let p = folder_perm(true, None);
    assert!(p.valid);
    assert_eq!(p.permission, "rw");
    assert_eq!(folder_perm(true, Some("r")).permission, "r");
    let p = folder_perm(false, Some("r"));
    assert!(!p.valid && p.permission.is_empty());

    let mut w = FsIdWalk::new("root");
    let mut order = Vec::new();
    while let Some(id) = w.next_id() {
        order.push(id.clone());
        let kids = match id.as_str() {
            "root" => vec!["a".to_string(), "b".to_string()],
            "b" => vec!["a".to_string(), "c".to_string()],
            _ => vec![],
        };
        let found = id != "c";
        w.record(id, found, kids);
    }
    assert_eq!(order, vec!["root", "b", "c", "a"]);
    assert_eq!(w.into_collected(), vec!["root".to_string(), "b".to_string(), "a".to_string()]);
    let ids = vec!["root".to_string(), "x".to_string(), "b".to_string()];
    let dirs = vec!["b".to_string(), "root".to_string()];
    assert_eq!(filter_dir_ids(&ids, &dirs), vec!["root".to_string(), "b".to_string()]);
}

#[test]
fn the_fs_id_walk_gathers_every_reachable_object_once() {
    // A shared entry and a cycle: each object is gathered once, and every
    // object reachable from the root is gathered.
    let store: Vec<(&str, Vec<&str>)> = vec![
        ("root", vec!["a", "b"]),
        ("a", vec!["d", "root"]),
        ("b", vec!["d", "missing"]),
        ("d", vec!["e"]),
        ("e", vec![]),
        ("unreachable", vec![]),
    ];
    let mut w = FsIdWalk::new("root");
    while let Some(id) = w.next_id() {
        let entry = store.iter().find(|(k, _)| *k == id.as_str());
        let (found, kids) = match entry {
            Some((_, kids)) => (true, kids.iter().map(|s| s.to_string()).collect()),
            None => (false, vec![]),
        };
        w.record(id, found, kids);
    }
    let mut got = w.into_collected();
    got.sort();
    assert_eq!(got, vec!["a", "b", "d", "e", "root"]);
}
