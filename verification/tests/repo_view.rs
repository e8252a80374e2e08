use nanofile_service::error::AppError;
use nanofile_service::repo::RepoRow;
use nanofile_service::repo_view::{
    build_repo_info_from_model, list_repo_infos, list_v21_repo_infos, repo_v21_of, resolve_owner,
    Membership, OwnerProfile, RepoModel,
};

fn plain_row() -> RepoRow {
    RepoRow {
        encrypted: 0,
        enc_version: 0,
        magic: None,
        random_key: None,
        salt: String::new(),
        pwd_hash: None,
        pwd_hash_algo: None,
        pwd_hash_params: None,
    }
}

fn model(id: &str, owner_id: i32, crypto: RepoRow) -> RepoModel {
    RepoModel {
        id: id.to_string(),
        name: format!("lib {id}"),
        description: "d".to_string(),
        owner_id,
        size: 42,
        updated_at: 1000,
        head_commit_id: Some("c0ffee".to_string()),
        repo_version: 1,
        crypto,
    }
}

fn member(repo_id: &str, permission: &str) -> Membership {
    Membership { repo_id: repo_id.to_string(), permission: permission.to_string() }
}

fn owners() -> Vec<OwnerProfile> {
    vec![OwnerProfile { id: 2, email: "bob@example.com".to_string(), name: "Bob".to_string() }]
}

#[test]
fn owners_resolve_to_the_caller_or_the_profile() {
    assert_eq!(
        resolve_owner(1, "alice@example.com", true, &owners()),
        ("alice@example.com".to_string(), "alice".to_string())
    );
    assert_eq!(
        resolve_owner(2, "alice@example.com", false, &owners()),
        ("bob@example.com".to_string(), "Bob".to_string())
    );
    assert_eq!(resolve_owner(3, "alice@example.com", false, &owners()), (String::new(), String::new()));
}

#[test]
fn a_plain_library_shows_no_crypto() {
    let info = build_repo_info_from_model(&model("r1", 1, plain_row()), "a@x", "a", "rw", 1);
    assert_eq!(info.type_, "repo");
    assert!(!info.encrypted);
    assert_eq!(info.enc_version, None);
    assert_eq!(info.salt, None);
    assert_eq!(info.lib_need_decrypt, None);
    assert_eq!(info.permission, "rw");
    assert_eq!(info.head_commit_id, Some("c0ffee".to_string()));
}

#[test]
fn an_encrypted_library_shows_its_verifier_without_magic() {
    let crypto = RepoRow {
        encrypted: 1,
        enc_version: 4,
        magic: Some("m".repeat(64)),
        random_key: Some("k".repeat(96)),
        salt: "s".repeat(64),
        pwd_hash: Some("h".to_string()),
        pwd_hash_algo: Some("pbkdf2_sha256".to_string()),
        pwd_hash_params: None,
    };
    let info = build_repo_info_from_model(&model("r2", 2, crypto), "b@x", "b", "r", 1);
    assert_eq!(info.type_, "srepo");
    assert_eq!(info.enc_version, Some(4));
    assert_eq!(info.magic, None);
    assert_eq!(info.pwd_hash, Some("h".to_string()));
    assert_eq!(info.salt, Some("s".repeat(64)));
    assert_eq!(info.lib_need_decrypt, Some(true));
}

#[test]
fn the_list_follows_memberships_and_skips_gone_libraries() {
    let rows = vec![model("r1", 1, plain_row()), model("r2", 2, plain_row())];
    let ms = vec![member("r2", "r"), member("gone", "rw"), member("r1", "rw")];
    let list = list_repo_infos(&ms, &rows, &owners(), 1, "alice@example.com");
    assert_eq!(list.len(), 2);
    assert_eq!(list[0].id, "r2");
    assert_eq!(list[0].owner, "bob@example.com");
    assert_eq!(list[0].permission, "r");
    assert_eq!(list[1].id, "r1");
    assert_eq!(list[1].owner_name, "alice");

    let rendered = vec!["2024-01-01T00:00:00+00:00".to_string(), "2024-01-02T00:00:00+00:00".to_string()];
    let v21 = list_v21_repo_infos(&ms, &rows, &rendered, &owners(), 1, "alice@example.com");
    assert_eq!(v21.repos.len(), 2);
    assert_eq!(v21.repos[0].type_, "shared");
    assert_eq!(v21.repos[0].last_modified, "2024-01-02T00:00:00+00:00");
    assert_eq!(v21.repos[1].type_, "mine");
    assert_eq!(v21.repos[1].owner_contact_email, "alice@example.com");
}

#[test]
fn a_single_library_needs_a_membership() {
    let row = model("r1", 1, plain_row());
    let m = member("r1", "rw");
    assert!(repo_v21_of(Some(&m), Some(&row), 1, "a@x", &[], "t").is_ok());
    assert_eq!(
        repo_v21_of(None, Some(&row), 1, "a@x", &[], "t").unwrap_err(),
        AppError::NotFound("repo not found".to_string())
    );
    assert!(repo_v21_of(Some(&m), None, 1, "a@x", &[], "t").is_err());
}
