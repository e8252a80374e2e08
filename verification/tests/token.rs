use nanofile_service::token::{
    generate_api_token, generate_backup_code, generate_s2fa_token, generate_share_link_token,
    generate_sync_token, generate_upload_link_token, hash_token, sync_token_expiry, token_expired,
    TOKEN_LEN,
};
use nanofile_service::sync_token::{
    body_token_accepted, reusable, ResolveStage, StoredToken, SyncTokenResolution, TokenAction,
    TokenEvent,
};

fn stored(row_id: i32, expires_at: Option<i64>, raw: Option<&str>) -> StoredToken {
    StoredToken { row_id, expires_at, raw: raw.map(|s| s.to_string()) }
}

fn created_token(a: &TokenAction) -> (String, Option<i64>) {
    match a {
        TokenAction::Create(t, e) => (t.clone(), *e),
        other => panic!("expected a creation, got {other:?}"),
    }
}

#[test]
fn test_hash_token_hex_length() {
    let h = hash_token("some-token-value");
    assert_eq!(h.len(), 64);
    assert!(h.chars().all(|c| c.is_ascii_hexdigit()));
}

#[test]
fn test_hash_token_deterministic_and_distinct() {
    let a = hash_token("token-a");
    assert_eq!(a, hash_token("token-a"));
    assert_ne!(a, hash_token("token-b"));
}

#[test]
fn test_generate_backup_code_entropy() {
    let code = generate_backup_code();
    assert_eq!(code.len(), 20);
    assert!(code.chars().all(|c| c.is_ascii_hexdigit()));
}

#[test]
fn the_token_hash_is_sha256_in_hex() {
    assert_eq!(
        hash_token("some-token-value"),
        "13e1de78ebfec41be58f1ca5281ed4c604bee839c625eac2243f78b43fe594a0"
    );
}

#[test]
fn minted_tokens_have_their_shapes() {
    let api = generate_api_token();
    assert_eq!(api.len(), TOKEN_LEN);
    assert!(api.chars().all(|c| c.is_ascii_hexdigit()));
    assert_eq!(generate_sync_token().len(), TOKEN_LEN);
    assert_eq!(generate_s2fa_token().len(), 40);
    let share = generate_share_link_token();
    assert_eq!(share.len(), 22);
    assert!(share.chars().all(|c| c.is_ascii_alphanumeric() || c == '-' || c == '_'));
    assert_eq!(generate_upload_link_token().len(), 22);
    assert!(generate_backup_code().chars().all(|c| !c.is_ascii_lowercase()));
}

#[test]
fn expiry_boundaries() {
    assert!(!token_expired(None, 1_000_000));
    assert!(!token_expired(Some(100), 100));
    assert!(token_expired(Some(100), 101));
    assert_eq!(sync_token_expiry(1000, 0), None);
    assert_eq!(sync_token_expiry(1000, 2), Some(1000 + 2 * 86400));
}

#[test]
fn a_body_sync_token_needs_a_live_row_and_an_active_owner() {
    assert!(body_token_accepted(true, None, 100, Some(true)));
    assert!(body_token_accepted(true, Some(100), 100, Some(true)));
    assert!(!body_token_accepted(true, Some(99), 100, Some(true)), "expired");
    assert!(!body_token_accepted(false, None, 100, Some(true)), "unknown token");
    assert!(!body_token_accepted(true, None, 100, Some(false)), "deactivated owner");
    assert!(!body_token_accepted(true, None, 100, None), "owner gone");
}

#[test]
fn stored_tokens_are_reused_while_usable() {
    assert_eq!(reusable(&stored(1, Some(200), Some("abc")), 200), Some("abc".to_string()));
    assert_eq!(reusable(&stored(1, Some(199), Some("abc")), 200), None);
    assert_eq!(reusable(&stored(1, None, None), 200), None);
}

#[test]
fn the_device_own_token_wins() {
    let mut r = SyncTokenResolution::new(true, Some(stored(7, None, Some("own"))), Some(stored(8, None, Some("shared"))), 1000, 365);
    assert_eq!(r.advance(TokenEvent::Begin), TokenAction::Use("own".to_string()));
    assert_eq!(r.stage, ResolveStage::Finished);
}

#[test]
fn a_stale_own_token_is_replaced_by_claiming_the_shared_one() {
    let mut r = SyncTokenResolution::new(true, Some(stored(7, Some(10), Some("old"))), Some(stored(8, None, Some("shared"))), 1000, 365);
    assert_eq!(r.advance(TokenEvent::Begin), TokenAction::Delete(7));
    assert_eq!(r.advance(TokenEvent::Deleted), TokenAction::Attach(8));
    assert_eq!(r.advance(TokenEvent::Attached(true)), TokenAction::Use("shared".to_string()));
}

#[test]
fn without_a_device_the_unattributed_token_is_shared() {
    let mut r = SyncTokenResolution::new(false, None, Some(stored(8, None, Some("shared"))), 1000, 365);
    assert_eq!(r.advance(TokenEvent::Begin), TokenAction::Use("shared".to_string()));
}

#[test]
fn a_lost_claim_falls_back_to_the_device_row_or_a_fresh_token() {
    let mut r = SyncTokenResolution::new(true, None, Some(stored(8, None, Some("shared"))), 1000, 365);
    assert_eq!(r.advance(TokenEvent::Begin), TokenAction::Attach(8));
    assert_eq!(r.advance(TokenEvent::Attached(false)), TokenAction::FindOwn);
    assert_eq!(
        r.advance(TokenEvent::Found(Some(stored(9, None, Some("mine"))))),
        TokenAction::Use("mine".to_string())
    );

    let mut r = SyncTokenResolution::new(true, None, Some(stored(8, None, Some("shared"))), 1000, 365);
    r.advance(TokenEvent::Begin);
    r.advance(TokenEvent::Attached(false));
    let (t, e) = created_token(&r.advance(TokenEvent::Found(None)));
    assert_eq!(t.len(), TOKEN_LEN);
    assert_eq!(e, Some(1000 + 365 * 86400));
    assert_eq!(r.advance(TokenEvent::Created(true)), TokenAction::Use(t));
}

#[test]
fn a_stale_unattributed_row_is_dropped_only_while_still_unattributed() {
    let mut r = SyncTokenResolution::new(true, None, Some(stored(8, Some(5), Some("old"))), 1000, 0);
    assert_eq!(r.advance(TokenEvent::Begin), TokenAction::FindUnattributed);
    assert_eq!(r.advance(TokenEvent::Found(Some(stored(8, Some(5), None)))), TokenAction::Delete(8));
    let (_, e) = created_token(&r.advance(TokenEvent::Deleted));
    assert_eq!(e, None, "a lifetime of zero never expires");

    let mut r = SyncTokenResolution::new(true, None, Some(stored(8, Some(5), Some("old"))), 1000, 0);
    r.advance(TokenEvent::Begin);
    // Claimed by another device meanwhile: left alone.
    let a = r.advance(TokenEvent::Found(None));
    assert!(matches!(a, TokenAction::Create(_, _)));
}

#[test]
fn a_failed_creation_reuses_the_winner_or_fails() {
    let mut r = SyncTokenResolution::new(true, None, None, 1000, 1);
    created_token(&r.advance(TokenEvent::Begin));
    assert_eq!(r.advance(TokenEvent::Created(false)), TokenAction::FindOwn);
    assert_eq!(r.advance(TokenEvent::Found(Some(stored(3, None, Some("winner"))))), TokenAction::Use("winner".to_string()));

    let mut r = SyncTokenResolution::new(false, None, None, 1000, 1);
    created_token(&r.advance(TokenEvent::Begin));
    assert_eq!(r.advance(TokenEvent::Created(false)), TokenAction::Fail);
    assert_eq!(r.stage, ResolveStage::Finished);
}
