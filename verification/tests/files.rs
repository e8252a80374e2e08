use nanofile_service::account::{account_total, display_name_update};
use nanofile_service::activity::{
    activity_offset, event_author, event_name, event_time, feed_repo_ids, get_unseen_messages,
    DetailField,
};
use nanofile_service::admin::{joined, usage_of, PathWalk};
use nanofile_service::dirent::{
    add_if_absent, find_named, is_dir_mode, remove_named, remove_names, rename_entry, DirEntry,
};
use nanofile_service::error::AppError;
use nanofile_service::file::{
    build_block_download_url, build_download_url, check_upload_name, child_path, empty_file_location,
    file_detail_of, file_edit_description, uploaded_block_count, uploaded_block_ids, FileEdit,
    is_empty_dir_id, lock_event_name, locked_files_view, parse_lock_operation, path_leaf,
    upload_index_path, upload_size_delta, LockOperation,
};
use nanofile_service::fileops::{
    added_description, copied_bytes, deleted_description, moved_description, parse_file_names,
    pick_entries,
};
use nanofile_service::starred::build_starred_item;

fn entry(name: &str, id: &str, size: i64, mode: u32) -> DirEntry {
    DirEntry {
        id: id.to_string(),
        mode,
        modifier: "old@x".to_string(),
        mtime: 1,
        name: name.to_string(),
        size,
    }
}

fn names(d: &[DirEntry]) -> Vec<&str> {
    d.iter().map(|e| e.name.as_str()).collect()
}

#[test]
fn activity_pages_and_feeds() {
    assert_eq!(get_unseen_messages(), 0);
    assert_eq!(activity_offset(0, 25), 0);
    assert_eq!(activity_offset(1, 25), 0);
    assert_eq!(activity_offset(3, 25), 50);
    let ids = feed_repo_ids(
        vec!["a".to_string(), "b".to_string()],
        &["b".to_string(), "c".to_string(), "c".to_string()],
    );
    assert_eq!(ids, vec!["a".to_string(), "b".to_string(), "c".to_string()]);
}

#[test]
fn event_names_fall_back_only_when_missing() {
    let t = |s: &str| DetailField::Text(s.to_string());
    assert_eq!(event_name(&t("a.txt"), &t("b.txt")), "a.txt");
    assert_eq!(event_name(&DetailField::Missing, &t("b.txt")), "b.txt");
    assert_eq!(event_name(&DetailField::Other, &t("b.txt")), "");
    assert_eq!(event_name(&DetailField::Missing, &DetailField::Missing), "");
    assert_eq!(event_author(None), (String::new(), String::new()));
    assert_eq!(
        event_author(Some(("Bob".to_string(), "bob@x".to_string()))),
        ("Bob".to_string(), "bob@x".to_string())
    );
    assert_eq!(event_time(0), "1970-01-01T00:00:00+00:00");
    assert_eq!(event_time(i64::MAX), "");
}

#[test]
fn usage_and_quota() {
    assert_eq!(usage_of(&[(1, 10), (2, 20)], 2), 20);
    assert_eq!(usage_of(&[(1, 10), (1, 30)], 1), 30);
    assert_eq!(usage_of(&[(1, 10)], 3), 0);
    assert_eq!(account_total(Some(0), 100), -1);
    assert_eq!(account_total(Some(500), 100), 500);
    assert_eq!(account_total(None, 100), 100);
    assert_eq!(account_total(None, 0), -1);
    assert_eq!(display_name_update(""), None);
    assert_eq!(display_name_update("  Ann  "), Some("Ann".to_string()));
    assert_eq!(display_name_update("   "), Some(String::new()));
}

#[test]
fn directory_edits() {
    let d = vec![entry("a", "1", 1, 33188), entry("b", "2", 2, 16384), entry("a", "3", 3, 33188)];
    assert!(is_dir_mode(16384));
    assert!(!is_dir_mode(33188));
    assert_eq!(find_named(&d, "a"), Some(0));
    assert_eq!(find_named(&d, "z"), None);
    assert_eq!(names(&remove_named(&d, "a")), vec!["b"]);
    assert_eq!(names(&remove_names(&d, &["b".to_string(), "z".to_string()])), vec!["a", "a"]);
    assert_eq!(names(&add_if_absent(&d, entry("b", "9", 0, 0))), vec!["a", "b", "a"]);
    assert_eq!(names(&add_if_absent(&d, entry("c", "9", 0, 0))), vec!["a", "b", "a", "c"]);
    let mut r = d.clone();
    rename_entry(&mut r, "3", "z".to_string());
    assert_eq!(names(&r), vec!["a", "b", "z"]);
    rename_entry(&mut r, "nope", "q".to_string());
    assert_eq!(names(&r), vec!["a", "b", "z"]);
}

#[test]
fn batch_operations() {
    assert_eq!(parse_file_names("a.txt::b.txt:"), vec!["a.txt".to_string(), "b.txt".to_string()]);
    assert!(parse_file_names("").is_empty());
    let src = vec![entry("a", "1", 10, 33188), entry("b", "2", 20, 33188)];
    let picked = pick_entries(&src, &["b".to_string(), "a".to_string()], "me@x", 99).unwrap();
    assert_eq!(names(&picked), vec!["b", "a"]);
    assert_eq!(picked[0].modifier, "me@x");
    assert_eq!(picked[0].mtime, 99);
    assert_eq!(picked[0].id, "2");
    assert_eq!(
        pick_entries(&src, &["a".to_string(), "x".to_string()], "me@x", 99),
        Err(AppError::NotFound("source file not found: x".to_string()))
    );
    assert_eq!(added_description(&src[..1]), "Added \"a\"");
    assert_eq!(added_description(&src), "Added \"a\" and 1 more files");
    assert_eq!(moved_description(&src), "Moved \"a\" and 1 more items");
    assert_eq!(deleted_description(3), "Deleted 3 items");
    assert_eq!(copied_bytes(&src), 30);
}

#[test]
fn file_paths_and_urls() {
    assert_eq!(path_leaf("/a/b.txt", ""), "b.txt");
    assert_eq!(path_leaf("b.txt", "x"), "x");
    assert_eq!(child_path("/", "a"), "/a");
    assert_eq!(child_path("/d", "a"), "/d/a");
    assert_eq!(upload_index_path("/d/", "a"), "/d/a");
    assert_eq!(upload_index_path("/d", "a"), "/d/a");
    assert_eq!(check_upload_name(""), Err(AppError::BadRequest("no file provided".to_string())));
    assert_eq!(check_upload_name("a"), Ok(()));
    assert_eq!(upload_size_delta(100, 30), 70);
    assert!(is_empty_dir_id("0000000000000000000000000000000000000000"));
    assert!(!is_empty_dir_id("000"));
    assert_eq!(
        build_download_url("https", 8082, "https://files.example.com/", Some("host:9000"), "tok"),
        "https://host:9000/download-api/tok"
    );
    assert_eq!(
        build_download_url("http", 8082, "https://files.example.com/", Some("host"), "tok"),
        "http://host:8082/download-api/tok"
    );
    assert_eq!(
        build_download_url("http", 8082, "https://files.example.com/", None, "tok"),
        "https://files.example.com/download-api/tok"
    );
    assert_eq!(
        build_block_download_url("http", 1, "https://s", None, "t", "f", "b"),
        "https://s/blks/t/f/b"
    );
}

#[test]
fn starred_items_show_their_library() {
    let item = build_starred_item("r", "/docs/a.txt", false, Some(("Lib", true)), "a@x", "Ann", 0, false);
    assert_eq!(item.obj_name, "a.txt");
    assert_eq!(item.repo_name, "Lib");
    assert!(item.repo_encrypted);
    assert_eq!(item.mtime, "1970-01-01T00:00:00+00:00");
    let root = build_starred_item("r", "/", true, None, "a@x", "Ann", 0, true);
    assert_eq!(root.obj_name, "");
    assert_eq!(root.repo_name, "");
    assert!(!root.repo_encrypted);
    assert!(root.deleted);
}

#[test]
fn locks_and_new_files() {
    assert_eq!(parse_lock_operation("lock"), Ok(LockOperation::Lock));
    assert_eq!(parse_lock_operation("unlock"), Ok(LockOperation::Unlock));
    assert_eq!(
        parse_lock_operation("steal"),
        Err(AppError::BadRequest("unknown operation: steal".to_string()))
    );
    assert_eq!(lock_event_name(LockOperation::Lock), "locked");
    assert_eq!(lock_event_name(LockOperation::Unlock), "unlocked");
    let locked = vec![("/a".to_string(), 7), ("/b".to_string(), 8)];
    assert_eq!(
        locked_files_view(Some(("r", 7)), "r", &locked, Some(99)),
        (vec![("/a".to_string(), 1), ("/b".to_string(), 0)], 99)
    );
    assert_eq!(locked_files_view(Some(("r", 7)), "r", &locked, None).1, 0);
    assert_eq!(locked_files_view(Some(("q", 7)), "r", &locked, Some(99)), (vec![], 0));
    assert_eq!(locked_files_view(None, "r", &locked, Some(99)), (vec![], 0));
    assert_eq!(empty_file_location("/a.txt"), Ok(("a.txt".to_string(), "/".to_string())));
    assert_eq!(empty_file_location("/d/e/a.txt"), Ok(("a.txt".to_string(), "/d/e".to_string())));
    assert_eq!(empty_file_location("a.txt"), Ok(("a.txt".to_string(), "/".to_string())));
    assert_eq!(empty_file_location("/d/"), Err(AppError::BadRequest("invalid path".to_string())));
}

#[test]
fn the_path_walk_lists_every_file_level_by_level() {
    let mut walk = PathWalk::new("root");
    assert!(!walk.is_done());
    assert_eq!(walk.pending_ids(), vec!["root".to_string()]);
    walk.advance(&[Some(vec![
        entry("a.txt", "f1", 3, 32768),
        entry("docs", "d1", 0, 16384),
        entry("b.md", "f2", 0, 32768),
        entry("empty", "0000000000000000000000000000000000000000", 0, 16384),
    ])]);
    assert_eq!(walk.files, vec!["a.txt".to_string(), "b.md".to_string()]);
    assert_eq!(
        walk.pending_ids(),
        vec!["d1".to_string(), "0000000000000000000000000000000000000000".to_string()]
    );
    walk.advance(&[Some(vec![entry("c.txt", "f3", 1, 32768), entry("deep", "d2", 0, 16384)]), None]);
    assert_eq!(walk.files, vec!["a.txt".to_string(), "b.md".to_string(), "docs/c.txt".to_string()]);
    assert_eq!(walk.frontier, vec![("d2".to_string(), "docs/deep".to_string())]);
    walk.advance(&[Some(vec![entry("z", "f4", 9, 33188)])]);
    assert_eq!(walk.files[3], "docs/deep/z");
    walk.advance(&[]);
    assert!(walk.is_done());
    assert_eq!(joined("", "x"), "x");
    assert_eq!(joined("p/q", "x"), "p/q/x");
}

#[test]
fn resumable_uploads_count_the_blocks_already_held() {
    assert!(uploaded_block_ids(None).is_empty());
    assert_eq!(
        uploaded_block_ids(Some(" b1 ,,b2, ,b3")),
        vec!["b1".to_string(), "b2".to_string(), "b3".to_string()]
    );
    assert!(uploaded_block_ids(Some("")).is_empty());
    assert_eq!(uploaded_block_count(&[true, false, true]), 2);
    assert_eq!(uploaded_block_count(&[]), 0);
}

#[test]
fn file_detail_falls_back_to_the_recorded_modifier() {
    let e = entry("a.txt", "f1", 12, 33188);
    let d = file_detail_of("f1", &e, None);
    assert_eq!(d.id, "f1");
    assert_eq!(d.name, "a.txt");
    assert_eq!(d.size, 12);
    assert_eq!(d.last_modified, 1);
    assert_eq!(d.last_modifier_name, "old@x");
    assert_eq!(d.last_modifier_email, "old@x");
    let d = file_detail_of("f1", &e, Some("old@example.com".to_string()));
    assert_eq!(d.last_modifier_email, "old@example.com");
}

#[test]
fn single_file_operations_describe_their_commit() {
    assert_eq!(file_edit_description(FileEdit::Moved, "a.txt"), "Moved a.txt");
    assert_eq!(file_edit_description(FileEdit::Renamed, "old.txt"), "Renamed old.txt");
    assert_eq!(file_edit_description(FileEdit::Deleted, "x"), "Deleted x");
    assert_eq!(file_edit_description(FileEdit::CreatedEmpty, "new.md"), "Created empty file new.md");
}
