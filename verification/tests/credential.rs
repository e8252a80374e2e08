use nanofile_service::credential::{
    group_devices, is_desktop_platform, revoke_outcome, platform_display_name, summarize, BrowserSessionView,
    BulkRevoke, ClientSessionView, CredentialInventory, CredentialKind, DeviceTrustView,
    SessionSource, SyncTokenView, EXPIRING_SOON_SECS, STALE_SECS,
};

#[test]
fn kinds_round_trip_through_their_form_value() {
    for kind in [
        CredentialKind::BrowserSession,
        CredentialKind::SyncToken,
        CredentialKind::DeviceTrust,
    ] {
        assert_eq!(CredentialKind::from_id(kind.id()), Some(kind));
    }
    assert_eq!(CredentialKind::from_id("client_session"), None);
}

#[test]
fn platform_names_match_the_devices_page() {
    assert_eq!(platform_display_name("mac"), "macOS");
    assert_eq!(platform_display_name(""), "");
    assert_eq!(platform_display_name("plan9"), "plan9");
    assert!(is_desktop_platform("linux"));
    assert!(!is_desktop_platform("android"));
}

#[test]
fn an_empty_inventory_says_so() {
    assert!(CredentialInventory::default().is_empty());
    let mut inventory = CredentialInventory {
        api_key_count: 1,
        ..Default::default()
    };
    assert!(!inventory.is_empty());
    inventory.api_key_count = 0;
    inventory.browsers.push(BrowserSessionView {
        id: 1,
        source: SessionSource::Web,
        client: String::new(),
        created_ts: 0,
        is_current: true,
    });
    assert!(!inventory.is_empty());
    assert_eq!(inventory.other_browser_sessions(), 0, "the only session is ours");
}

#[test]
fn bulk_kinds_round_trip_through_their_form_value() {
    let what = BulkRevoke::OtherBrowserSessions;
    assert_eq!(BulkRevoke::from_id(what.id()), Some(what));
    assert_eq!(BulkRevoke::from_id("delete_everything"), None);
    assert_eq!(BulkRevoke::from_id("revoke_sync_tokens"), None);
}

fn client(platform: &str, device_id: &str, name: &str) -> ClientSessionView {
    ClientSessionView {
        platform: platform.to_string(),
        platform_display: platform_display_name(platform),
        device_id: device_id.to_string(),
        device_name: name.to_string(),
        client_version: "3.0.4".to_string(),
        created_ts: 1_000,
        is_desktop_client: is_desktop_platform(platform),
    }
}

fn token(id: i32, peer_id: Option<&str>, last_sync: Option<i64>, expires: Option<i64>) -> SyncTokenView {
    SyncTokenView {
        id,
        repo_id: "r1".to_string(),
        repo_name: Some("repo".to_string()),
        device_name: Some("laptop".to_string()),
        peer_ip: None,
        client_version: None,
        created_ts: 1_000,
        last_sync_ts: last_sync,
        expires_at: expires,
        peer_id: peer_id.map(str::to_string),
    }
}

#[test]
fn a_device_owns_only_the_tokens_that_carry_its_id() {
    let devices = group_devices(
        &[client("mac", "dev-a", "laptop"), client("linux", "dev-b", "laptop")],
        &[
            token(1, Some("dev-a"), Some(2_000), None),
            token(2, Some("dev-b"), Some(2_000), None),
            token(3, None, Some(2_000), None),
        ],
        &[],
    );
    assert_eq!(devices.len(), 2, "two devices, both named laptop");
    assert_eq!(devices[0].sync_tokens.len(), 1);
    assert_eq!(devices[0].sync_tokens[0].id, 1);
    assert_eq!(devices[1].sync_tokens[0].id, 2);
    assert!(
        devices.iter().all(|d| d.sync_tokens.iter().all(|t| t.id != 3)),
        "an unowned token is not attached to either device"
    );
}

#[test]
fn a_device_without_an_id_owns_nothing() {
    let devices = group_devices(
        &[client("", "", "")],
        &[token(1, Some(""), Some(2_000), None)],
        &[],
    );
    assert_eq!(devices.len(), 1);
    assert!(
        devices[0].sync_tokens.is_empty(),
        "an empty device id must not match every token with no peer id"
    );
}

#[test]
fn a_device_trust_is_matched_only_by_id() {
    let trust = DeviceTrustView {
        id: 9,
        device_name: Some("laptop".to_string()),
        device_id: Some("dev-a".to_string()),
        created_ts: 1_000,
        expires_at: i64::MAX,
    };
    let devices = group_devices(
        &[client("mac", "dev-a", "laptop"), client("linux", "dev-b", "laptop")],
        &[],
        std::slice::from_ref(&trust),
    );
    assert_eq!(
        devices[0].device_trusts.iter().map(|t| t.id).collect::<Vec<_>>(),
        vec![9]
    );
    assert!(devices[1].device_trusts.is_empty(), "names do not match devices");
}

#[test]
fn every_trust_of_a_device_is_attached_to_it() {
    let trust = |id: i32| DeviceTrustView {
        id,
        device_name: Some("laptop".to_string()),
        device_id: Some("dev-a".to_string()),
        created_ts: 1_000,
        expires_at: i64::MAX,
    };
    let devices = group_devices(&[client("mac", "dev-a", "laptop")], &[], &[trust(1), trust(2)]);
    assert_eq!(
        devices[0].device_trusts.iter().map(|t| t.id).collect::<Vec<_>>(),
        vec![1, 2],
        "both rows belong to the device, not to the unattached list"
    );
}

#[test]
fn expiry_and_staleness_have_the_expected_boundaries() {
    let now = 10 * STALE_SECS;
    let forever = token(1, None, Some(now), None);
    assert!(!forever.is_expired(now));
    assert!(!forever.expires_soon(now));

    let expired = token(2, None, Some(now), Some(now - 1));
    assert!(expired.is_expired(now));
    assert!(!expired.expires_soon(now));

    let soon = token(3, None, Some(now), Some(now + 60));
    assert!(!soon.is_expired(now));
    assert!(soon.expires_soon(now));

    let later = token(4, None, Some(now), Some(now + EXPIRING_SOON_SECS + 1));
    assert!(!later.expires_soon(now));

    assert!(token(5, None, None, None).is_stale(now));
    assert!(!token(6, None, Some(now - 60), None).is_stale(now));
    assert!(token(7, None, Some(now - STALE_SECS - 1), None).is_stale(now));
}

#[test]
fn the_summary_counts_what_the_page_shows() {
    let now = 1_000_000;
    let mut inventory = CredentialInventory {
        api_key_count: 2,
        clients: vec![client("mac", "dev-a", "laptop")],
        browsers: vec![
            BrowserSessionView {
                id: 1,
                source: SessionSource::Web,
                client: "Chrome · macOS".to_string(),
                created_ts: now,
                is_current: true,
            },
            BrowserSessionView {
                id: 2,
                source: SessionSource::Web,
                client: "Firefox · Windows".to_string(),
                created_ts: now,
                is_current: false,
            },
        ],
        sync_tokens: vec![
            token(1, Some("dev-a"), Some(now), Some(now - 1)),
            token(2, Some("dev-a"), Some(now - STALE_SECS - 1), None),
            token(3, Some("dev-a"), Some(now), Some(now + 10 * 24 * 3600)),
        ],
        device_trusts: Vec::new(),
        ..Default::default()
    };
    inventory.devices = group_devices(&inventory.clients, &inventory.sync_tokens, &inventory.device_trusts);
    inventory.summary = summarize(&inventory, now);

    assert_eq!(inventory.summary.browser_sessions, 2);
    assert_eq!(inventory.summary.client_devices, 1);
    assert_eq!(inventory.summary.sync_tokens, 3);
    assert_eq!(inventory.summary.api_keys, 2);
    assert_eq!(inventory.summary.expired_sync_tokens, 1);
    assert_eq!(inventory.summary.stale_sync_tokens, 1, "the expired token is not also counted as stale");
    assert_eq!(inventory.other_browser_sessions(), 1);
    assert!(!inventory.summary.two_fa_enabled);
    assert!(inventory.summary.has_warning());

    let mut healthy = inventory.clone();
    healthy.summary.two_fa_enabled = true;
    healthy.summary.expired_sync_tokens = 0;
    healthy.summary.stale_sync_tokens = 0;
    assert!(!healthy.summary.has_warning());
}

#[test]
fn revoking_nothing_is_not_a_success() {
    assert_eq!(revoke_outcome(1), Ok(()));
    assert_eq!(
        revoke_outcome(0),
        Err(nanofile_service::error::AppError::NotFound("no such credential".to_string()))
    );
}
