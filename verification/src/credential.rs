//! The account's credential inventory: everything long-lived it holds.
//!
//! A user can hold four kinds of credential: browser sessions, client
//! sessions (grouped by device), repository sync tokens and 2FA device
//! trusts. The views carry metadata only: a sync token's value is never part
//! of them.
//!
//! The inventory is assembled from the rows the repositories return
//! ([`assemble_inventory`]); devices are keyed by `platform` + `device_id`,
//! never by their display name, which two machines can share.

use vstd::prelude::*;
use crate::error::{AppError, is_not_found, not_found};
use crate::text::{copy_opt_string, opt_string_or_empty, opt_text, owned, str_eq};

verus! {

/// A sync token that has not synced for this long is worth questioning.
pub const STALE_SECS: i64 = 2592000;

/// How close to expiry a token has to be for the summary to flag it.
pub const EXPIRING_SOON_SECS: i64 = 604800;

/// Where a session's login came from.
#[derive(Clone, Copy, Debug, PartialEq, Eq, Structural)]
pub enum SessionSource {
    /// A password login in a browser.
    Web,
    /// A single-sign-on login in a browser.
    Sso,
    /// A browser session handed over by a desktop client ("view on website").
    WebClientLogin,
    /// A client application's own session.
    Client,
}

impl SessionSource {
    /// Whether the session belongs to a browser rather than to a client
    /// application.
    pub open spec fn spec_is_browser(self) -> bool {
        !(self matches SessionSource::Client)
    }

    /// Whether the session belongs to a browser.
    pub fn is_browser(self) -> (b: bool)
        ensures
            b == self.spec_is_browser(),
    {
        !matches!(self, SessionSource::Client)
    }
}

/// Which list a revocation addresses.
#[derive(Clone, Copy, Debug, PartialEq, Eq, Structural)]
pub enum CredentialKind {
    /// A browser session, by `api_tokens` row id.
    BrowserSession,
    /// A repository sync token, by `sync_tokens` row id.
    SyncToken,
    /// A 2FA device trust, by `s2fa_tokens` row id.
    DeviceTrust,
}

/// The form value of a credential kind.
pub open spec fn credential_kind_id(k: CredentialKind) -> Seq<char> {
    match k {
        CredentialKind::BrowserSession => "browser_session"@,
        CredentialKind::SyncToken => "sync_token"@,
        CredentialKind::DeviceTrust => "device_trust"@,
    }
}

impl CredentialKind {
    /// Parse the form value the page sends back.
    pub fn from_id(value: &str) -> (r: Option<CredentialKind>)
        ensures
            match r {
                Some(k) => value@ == credential_kind_id(k),
                None => forall|k: CredentialKind| value@ != credential_kind_id(k),
            },
    {
        if str_eq(value, "browser_session") {
            Some(CredentialKind::BrowserSession)
        } else if str_eq(value, "sync_token") {
            Some(CredentialKind::SyncToken)
        } else if str_eq(value, "device_trust") {
            Some(CredentialKind::DeviceTrust)
        } else {
            proof {
                assert forall|k: CredentialKind| value@ != credential_kind_id(k) by {
                    match k {
                        CredentialKind::BrowserSession => {},
                        CredentialKind::SyncToken => {},
                        CredentialKind::DeviceTrust => {},
                    }
                }
            }
            None
        }
    }

    /// The form value for this kind. A client session has none: it is revoked
    /// by device, through its own route.
    pub fn id(self) -> (s: &'static str)
        ensures
            s@ == credential_kind_id(self),
    {
        match self {
            CredentialKind::BrowserSession => "browser_session",
            CredentialKind::SyncToken => "sync_token",
            CredentialKind::DeviceTrust => "device_trust",
        }
    }
}

/// A form value names at most one kind, so parsing a kind's value gives the
/// kind back.
pub proof fn credential_kind_round_trip(k: CredentialKind)
    ensures
        forall|j: CredentialKind| credential_kind_id(j) == credential_kind_id(k) ==> j == k,
{
    reveal_strlit("browser_session");
    reveal_strlit("sync_token");
    reveal_strlit("device_trust");
    assert("browser_session"@.len() != "sync_token"@.len());
    assert("browser_session"@.len() == "device_trust"@.len() + 3);
    assert("sync_token"@.len() != "device_trust"@.len());
}

/// A client application's session, grouped by device.
#[derive(Debug, Clone)]
pub struct ClientSessionView {
    pub platform: String,
    pub platform_display: String,
    pub device_id: String,
    pub device_name: String,
    pub client_version: String,
    pub created_ts: i64,
    pub is_desktop_client: bool,
}

/// A session a browser holds.
#[derive(Debug, Clone)]
pub struct BrowserSessionView {
    pub id: i32,
    /// The login this session came from.
    pub source: SessionSource,
    /// What the browser looked like, e.g. `Chrome · macOS`; empty when the
    /// login carried no usable `User-Agent`.
    pub client: String,
    pub created_ts: i64,
    /// Whether this is the session the reader is using.
    pub is_current: bool,
}

impl BrowserSessionView {
    /// Whether this session is one the owner could sign out from here.
    pub fn is_other(&self) -> (b: bool)
        ensures
            b == !self.is_current,
    {
        !self.is_current
    }
}

/// A repository sync token, shown without its value.
#[derive(Debug, Clone)]
pub struct SyncTokenView {
    pub id: i32,
    pub repo_id: String,
    /// `None` when the library no longer exists.
    pub repo_name: Option<String>,
    pub device_name: Option<String>,
    pub peer_ip: Option<String>,
    pub client_version: Option<String>,
    pub created_ts: i64,
    pub last_sync_ts: Option<i64>,
    pub expires_at: Option<i64>,
    /// The client identifier the token was minted for, when the protocol
    /// carried one: what links a token to a device.
    pub peer_id: Option<String>,
}

impl SyncTokenView {
    /// Expired: an expiry at or before `now`. No expiry means never.
    pub open spec fn spec_expired(self, now: i64) -> bool {
        self.expires_at matches Some(e) && e <= now
    }

    /// Expiring soon: not yet expired, but within [`EXPIRING_SOON_SECS`].
    pub open spec fn spec_expires_soon(self, now: i64) -> bool {
        self.expires_at matches Some(e) && e > now && e - now <= EXPIRING_SOON_SECS
    }

    /// Stale: the last sync (or, when it never synced, its creation) lies at
    /// least [`STALE_SECS`] in the past.
    pub open spec fn spec_stale(self, now: i64) -> bool {
        match self.last_sync_ts {
            None => self.created_ts <= now - STALE_SECS,
            Some(last) => last <= now - STALE_SECS,
        }
    }

    /// Whether the token has already expired.
    pub fn is_expired(&self, now: i64) -> (b: bool)
        ensures
            b == self.spec_expired(now),
    {
        match self.expires_at {
            Some(expires) => expires <= now,
            None => false,
        }
    }

    /// Whether the token is close enough to expiry to be worth warning about.
    pub fn expires_soon(&self, now: i64) -> (b: bool)
        ensures
            b == self.spec_expires_soon(now),
    {
        match self.expires_at {
            Some(expires) => expires > now && (expires as i128) - (now as i128) <= EXPIRING_SOON_SECS as i128,
            None => false,
        }
    }

    /// Whether the token has never synced, or has not synced recently.
    pub fn is_stale(&self, now: i64) -> (b: bool)
        ensures
            b == self.spec_stale(now),
    {
        let threshold = (now as i128) - (STALE_SECS as i128);
        match self.last_sync_ts {
            None => (self.created_ts as i128) <= threshold,
            Some(last) => (last as i128) <= threshold,
        }
    }

    /// A field-by-field copy.
    pub fn duplicate(&self) -> (r: SyncTokenView)
        ensures
            r == *self,
    {
        SyncTokenView {
            id: self.id,
            repo_id: self.repo_id.clone(),
            repo_name: copy_opt_string(&self.repo_name),
            device_name: copy_opt_string(&self.device_name),
            peer_ip: copy_opt_string(&self.peer_ip),
            client_version: copy_opt_string(&self.client_version),
            created_ts: self.created_ts,
            last_sync_ts: self.last_sync_ts,
            expires_at: self.expires_at,
            peer_id: copy_opt_string(&self.peer_id),
        }
    }
}

/// A device that may skip the second factor.
#[derive(Debug, Clone)]
pub struct DeviceTrustView {
    pub id: i32,
    pub device_name: Option<String>,
    pub device_id: Option<String>,
    pub created_ts: i64,
    pub expires_at: i64,
}

impl DeviceTrustView {
    /// A field-by-field copy.
    pub fn duplicate(&self) -> (r: DeviceTrustView)
        ensures
            r == *self,
    {
        DeviceTrustView {
            id: self.id,
            device_name: copy_opt_string(&self.device_name),
            device_id: copy_opt_string(&self.device_id),
            created_ts: self.created_ts,
            expires_at: self.expires_at,
        }
    }
}

/// A device a client holds, with everything else that device owns.
#[derive(Debug, Clone)]
pub struct DeviceGroup {
    pub platform: String,
    pub platform_display: String,
    pub device_id: String,
    pub device_name: String,
    pub client_version: String,
    pub created_ts: i64,
    pub is_desktop_client: bool,
    /// Sync tokens whose `peer_id` is this device's `device_id`.
    pub sync_tokens: Vec<SyncTokenView>,
    /// 2FA trusts whose `device_id` is this device's `device_id`.
    pub device_trusts: Vec<DeviceTrustView>,
}

/// The at-a-glance state of the inventory, for the summary strip.
#[derive(Debug, Clone, Default)]
pub struct CredentialSummary {
    pub browser_sessions: usize,
    pub client_devices: usize,
    pub sync_tokens: usize,
    pub api_keys: usize,
    pub device_trusts: usize,
    pub expired_sync_tokens: usize,
    pub stale_sync_tokens: usize,
    /// Whether the account has two-factor enabled. Filled in by the page:
    /// this service deliberately reads no 2FA state.
    pub two_fa_enabled: bool,
}

impl CredentialSummary {
    /// Whether anything in the inventory deserves a warning line.
    pub fn has_warning(&self) -> (b: bool)
        ensures
            b == (!self.two_fa_enabled || self.expired_sync_tokens > 0 || self.stale_sync_tokens > 0),
    {
        !self.two_fa_enabled || self.expired_sync_tokens > 0 || self.stale_sync_tokens > 0
    }
}

/// Every long-lived credential the account holds.
#[derive(Debug, Clone, Default)]
pub struct CredentialInventory {
    pub clients: Vec<ClientSessionView>,
    pub browsers: Vec<BrowserSessionView>,
    pub sync_tokens: Vec<SyncTokenView>,
    pub device_trusts: Vec<DeviceTrustView>,
    /// One entry per client device, carrying the sync tokens and 2FA trusts
    /// that belong to it.
    pub devices: Vec<DeviceGroup>,
    /// API keys are managed on their own page; the inventory counts them.
    pub api_key_count: usize,
    /// The summary strip's numbers.
    pub summary: CredentialSummary,
}

/// How many browser sessions in `bs` are not the reader's own.
pub open spec fn count_other(bs: Seq<BrowserSessionView>) -> nat
    decreases bs.len(),
{
    if bs.len() == 0 {
        0
    } else {
        count_other(bs.drop_last()) + if bs.last().is_current { 0nat } else { 1nat }
    }
}

impl CredentialInventory {
    /// Whether the account holds nothing but the session being used.
    pub fn is_empty(&self) -> (b: bool)
        ensures
            b == (self.clients@.len() == 0 && self.browsers@.len() == 0
                && self.sync_tokens@.len() == 0 && self.device_trusts@.len() == 0
                && self.api_key_count == 0),
    {
        self.clients.len() == 0 && self.browsers.len() == 0 && self.sync_tokens.len() == 0
            && self.device_trusts.len() == 0 && self.api_key_count == 0
    }

    /// How many browser sessions "sign out everywhere else" would remove.
    pub fn other_browser_sessions(&self) -> (n: usize)
        ensures
            n == count_other(self.browsers@),
    {
        let mut n: usize = 0;
        let mut i: usize = 0;
        while i < self.browsers.len()
            invariant
                i <= self.browsers@.len(),
                n == count_other(self.browsers@.take(i as int)),
                n <= i,
            decreases self.browsers@.len() - i,
        {
            proof {
                assert(self.browsers@.take(i + 1).drop_last() =~= self.browsers@.take(i as int));
            }
            if self.browsers[i].is_other() {
                n = n + 1;
            }
            i = i + 1;
        }
        proof {
            assert(self.browsers@.take(i as int) =~= self.browsers@);
        }
        n
    }
}

/// The outcome of revoking one credential, from how many rows the store
/// removed for its owner: none means the credential was not this user's or
/// was already gone, and is reported as such rather than as a success.
pub fn revoke_outcome(removed: u64) -> (r: Result<(), AppError>)
    ensures
        r is Ok <==> removed > 0,
        r is Err ==> is_not_found(r->Err_0, "no such credential"@),
{
    if removed == 0 {
        return Err(not_found("no such credential"));
    }
    Ok(())
}

/// Which set of credentials a bulk revoke addresses.
#[derive(Clone, Copy, Debug, PartialEq, Eq, Structural)]
pub enum BulkRevoke {
    /// Every browser session except the one asking.
    OtherBrowserSessions,
}

impl BulkRevoke {
    /// Parse the form value the page sends back. Only `sign_out_others` is
    /// accepted; the retired "revoke every sync token" value is not.
    pub fn from_id(value: &str) -> (r: Option<BulkRevoke>)
        ensures
            r == (if value@ == "sign_out_others"@ {
                Some(BulkRevoke::OtherBrowserSessions)
            } else {
                None
            }),
    {
        if str_eq(value, "sign_out_others") {
            Some(BulkRevoke::OtherBrowserSessions)
        } else {
            None
        }
    }

    /// The form value of this action.
    pub fn id(self) -> (s: &'static str)
        ensures
            s@ == "sign_out_others"@,
    {
        match self {
            BulkRevoke::OtherBrowserSessions => "sign_out_others",
        }
    }
}

/// The display name of a platform, matching the devices page.
pub open spec fn platform_display_spec(p: Seq<char>) -> Seq<char> {
    if p == "windows"@ {
        "Windows"@
    } else if p == "linux"@ {
        "Linux"@
    } else if p == "mac"@ {
        "macOS"@
    } else if p == "ios"@ {
        "iOS"@
    } else if p == "android"@ {
        "Android"@
    } else if p == "harmonyos"@ {
        "HarmonyOS"@
    } else {
        p
    }
}

/// Whether a platform is a desktop client.
pub open spec fn is_desktop_spec(p: Seq<char>) -> bool {
    p == "windows"@ || p == "linux"@ || p == "mac"@
}

/// Whether the platform is a desktop client, which only changes the icon.
pub fn is_desktop_platform(platform: &str) -> (b: bool)
    ensures
        b == is_desktop_spec(platform@),
{
    str_eq(platform, "windows") || str_eq(platform, "linux") || str_eq(platform, "mac")
}

/// Human-readable platform name, matching the devices page. An unknown
/// platform is shown as reported; an empty one stays empty.
pub fn platform_display_name(platform: &str) -> (s: String)
    ensures
        s@ == platform_display_spec(platform@),
{
    if str_eq(platform, "windows") {
        owned("Windows")
    } else if str_eq(platform, "linux") {
        owned("Linux")
    } else if str_eq(platform, "mac") {
        owned("macOS")
    } else if str_eq(platform, "ios") {
        owned("iOS")
    } else if str_eq(platform, "android") {
        owned("Android")
    } else if str_eq(platform, "harmonyos") {
        owned("HarmonyOS")
    } else {
        owned(platform)
    }
}

/// Whether a device with id `device_id` owns a sync token: the token's
/// `peer_id` is that id, and the id is not empty.
pub open spec fn owns_token(device_id: Seq<char>, t: SyncTokenView) -> bool {
    &&& device_id.len() > 0
    &&& t.peer_id matches Some(p) && p@ == device_id
}

/// Whether a device with id `device_id` owns a 2FA trust.
pub open spec fn owns_trust(device_id: Seq<char>, t: DeviceTrustView) -> bool {
    &&& device_id.len() > 0
    &&& t.device_id matches Some(d) && d@ == device_id
}

/// What [`group_devices`] builds for one client.
pub open spec fn device_of(
    g: DeviceGroup,
    c: ClientSessionView,
    tokens: Seq<SyncTokenView>,
    trusts: Seq<DeviceTrustView>,
) -> bool {
    &&& g.platform == c.platform
    &&& g.platform_display == c.platform_display
    &&& g.device_id == c.device_id
    &&& g.device_name == c.device_name
    &&& g.client_version == c.client_version
    &&& g.created_ts == c.created_ts
    &&& g.is_desktop_client == c.is_desktop_client
    &&& g.sync_tokens@ == tokens.filter(|t: SyncTokenView| owns_token(c.device_id@, t))
    &&& g.device_trusts@ == trusts.filter(|t: DeviceTrustView| owns_trust(c.device_id@, t))
}

fn owned_tokens(device_id: &String, tokens: &[SyncTokenView]) -> (out: Vec<SyncTokenView>)
    ensures
        out@ == tokens@.filter(|t: SyncTokenView| owns_token(device_id@, t)),
{
    let ghost pred = |t: SyncTokenView| owns_token(device_id@, t);
    let mut out: Vec<SyncTokenView> = Vec::new();
    let mut i: usize = 0;
    let id_empty = device_id.as_str().is_empty();
    proof {
        reveal(Seq::filter);
        assert(tokens@.take(0) =~= Seq::<SyncTokenView>::empty());
    }
    while i < tokens.len()
        invariant
            i <= tokens@.len(),
            id_empty == (device_id@.len() == 0),
            out@ == tokens@.take(i as int).filter(pred),
            pred == (|t: SyncTokenView| owns_token(device_id@, t)),
        decreases tokens@.len() - i,
    {
        let t = &tokens[i];
        let owns = !id_empty && match &t.peer_id {
            Some(p) => str_eq(p.as_str(), device_id.as_str()),
            None => false,
        };
        proof {
            reveal(Seq::filter);
            assert(tokens@.take(i + 1).drop_last() =~= tokens@.take(i as int));
            assert(owns == pred(tokens@[i as int]));
        }
        if owns {
            out.push(t.duplicate());
        }
        i = i + 1;
    }
    proof {
        assert(tokens@.take(i as int) =~= tokens@);
    }
    out
}

fn owned_trusts(device_id: &String, trusts: &[DeviceTrustView]) -> (out: Vec<DeviceTrustView>)
    ensures
        out@ == trusts@.filter(|t: DeviceTrustView| owns_trust(device_id@, t)),
{
    let ghost pred = |t: DeviceTrustView| owns_trust(device_id@, t);
    let mut out: Vec<DeviceTrustView> = Vec::new();
    let mut i: usize = 0;
    let id_empty = device_id.as_str().is_empty();
    proof {
        reveal(Seq::filter);
        assert(trusts@.take(0) =~= Seq::<DeviceTrustView>::empty());
    }
    while i < trusts.len()
        invariant
            i <= trusts@.len(),
            id_empty == (device_id@.len() == 0),
            out@ == trusts@.take(i as int).filter(pred),
            pred == (|t: DeviceTrustView| owns_trust(device_id@, t)),
        decreases trusts@.len() - i,
    {
        let t = &trusts[i];
        let owns = !id_empty && match &t.device_id {
            Some(d) => str_eq(d.as_str(), device_id.as_str()),
            None => false,
        };
        proof {
            reveal(Seq::filter);
            assert(trusts@.take(i + 1).drop_last() =~= trusts@.take(i as int));
            assert(owns == pred(trusts@[i as int]));
        }
        if owns {
            out.push(t.duplicate());
        }
        i = i + 1;
    }
    proof {
        assert(trusts@.take(i as int) =~= trusts@);
    }
    out
}

/// Group credentials by the device that holds them: one group per client,
/// in order, holding exactly the tokens and trusts that carry its non-empty
/// device id. Names play no part.
pub fn group_devices(
    clients: &[ClientSessionView],
    tokens: &[SyncTokenView],
    trusts: &[DeviceTrustView],
) -> (groups: Vec<DeviceGroup>)
    ensures
        groups@.len() == clients@.len(),
        forall|i: int|
            0 <= i < clients@.len() ==> device_of(#[trigger] groups@[i], clients@[i], tokens@, trusts@),
{
    let mut groups: Vec<DeviceGroup> = Vec::new();
    let mut i: usize = 0;
    while i < clients.len()
        invariant
            i <= clients@.len(),
            groups@.len() == i,
            forall|j: int|
                0 <= j < i ==> device_of(#[trigger] groups@[j], clients@[j], tokens@, trusts@),
        decreases clients@.len() - i,
    {
        let c = &clients[i];
        let g = DeviceGroup {
            platform: c.platform.clone(),
            platform_display: c.platform_display.clone(),
            device_id: c.device_id.clone(),
            device_name: c.device_name.clone(),
            client_version: c.client_version.clone(),
            created_ts: c.created_ts,
            is_desktop_client: c.is_desktop_client,
            sync_tokens: owned_tokens(&c.device_id, tokens),
            device_trusts: owned_trusts(&c.device_id, trusts),
        };
        groups.push(g);
        i = i + 1;
    }
    groups
}

/// How many tokens are expired at `now`.
pub open spec fn count_expired(ts: Seq<SyncTokenView>, now: i64) -> nat
    decreases ts.len(),
{
    if ts.len() == 0 {
        0
    } else {
        count_expired(ts.drop_last(), now) + if ts.last().spec_expired(now) { 1nat } else { 0nat }
    }
}

/// How many tokens are stale but not expired at `now` (an expired token is
/// counted once, as expired).
pub open spec fn count_stale(ts: Seq<SyncTokenView>, now: i64) -> nat
    decreases ts.len(),
{
    if ts.len() == 0 {
        0
    } else {
        count_stale(ts.drop_last(), now) + if ts.last().spec_stale(now) && !ts.last().spec_expired(now) {
            1nat
        } else {
            0nat
        }
    }
}

/// The summary strip's numbers, from the lists already assembled. Two-factor
/// is left off: the page fills it in.
pub fn summarize(inventory: &CredentialInventory, now: i64) -> (s: CredentialSummary)
    ensures
        s.browser_sessions == inventory.browsers@.len(),
        s.client_devices == inventory.clients@.len(),
        s.sync_tokens == inventory.sync_tokens@.len(),
        s.api_keys == inventory.api_key_count,
        s.device_trusts == inventory.device_trusts@.len(),
        s.expired_sync_tokens == count_expired(inventory.sync_tokens@, now),
        s.stale_sync_tokens == count_stale(inventory.sync_tokens@, now),
        !s.two_fa_enabled,
{
    let ts = &inventory.sync_tokens;
    let mut expired: usize = 0;
    let mut stale: usize = 0;
    let mut i: usize = 0;
    while i < ts.len()
        invariant
            i <= ts@.len(),
            expired == count_expired(ts@.take(i as int), now),
            stale == count_stale(ts@.take(i as int), now),
            expired <= i,
            stale <= i,
        decreases ts@.len() - i,
    {
        proof {
            assert(ts@.take(i + 1).drop_last() =~= ts@.take(i as int));
        }
        let e = ts[i].is_expired(now);
        if e {
            expired = expired + 1;
        }
        if ts[i].is_stale(now) && !e {
            stale = stale + 1;
        }
        i = i + 1;
    }
    proof {
        assert(ts@.take(i as int) =~= ts@);
    }
    CredentialSummary {
        browser_sessions: inventory.browsers.len(),
        client_devices: inventory.clients.len(),
        sync_tokens: ts.len(),
        api_keys: inventory.api_key_count,
        device_trusts: inventory.device_trusts.len(),
        expired_sync_tokens: expired,
        stale_sync_tokens: stale,
        two_fa_enabled: false,
    }
}

} // verus!

verus! {

/// A session row as the repository returns it. `source` is `None` when the
/// stored id is not one this build knows; `client_label` is the display label
/// of its `User-Agent` (`None` when there was none).
#[derive(Debug, Clone)]
pub struct SessionRow {
    pub id: i32,
    pub source: Option<SessionSource>,
    pub client_label: Option<String>,
    pub platform: Option<String>,
    pub device_id: Option<String>,
    pub device_name: Option<String>,
    pub client_version: Option<String>,
    pub created_at: i64,
}

/// A sync token row, without its (encrypted) value.
#[derive(Debug, Clone)]
pub struct SyncTokenRow {
    pub id: i32,
    pub repo_id: String,
    pub peer_name: Option<String>,
    pub peer_ip: Option<String>,
    pub client_version: Option<String>,
    pub created_at: i64,
    pub last_sync_time: Option<i64>,
    pub expires_at: Option<i64>,
    pub peer_id: Option<String>,
}

/// A 2FA device trust row.
#[derive(Debug, Clone)]
pub struct DeviceTrustRow {
    pub id: i32,
    pub device_name: Option<String>,
    pub device_id: Option<String>,
    pub created_at: i64,
    pub expires_at: i64,
}

/// The source of a stored session; an unknown one counts as a browser
/// session, the direction that keeps it visible and revocable.
pub open spec fn source_of(r: SessionRow) -> SessionSource {
    match r.source {
        Some(s) => s,
        None => SessionSource::Web,
    }
}

/// Whether a session row lists under browsers.
pub open spec fn is_browser_row(r: SessionRow) -> bool {
    source_of(r).spec_is_browser()
}

/// Two client rows are the same device when platform and device id agree.
pub open spec fn same_device(a: SessionRow, b: SessionRow) -> bool {
    opt_text(a.platform) == opt_text(b.platform) && opt_text(a.device_id) == opt_text(b.device_id)
}

/// The client rows the inventory lists: the first row of each device, in
/// order.
pub open spec fn client_rows(rows: Seq<SessionRow>) -> Seq<SessionRow>
    decreases rows.len(),
{
    if rows.len() == 0 {
        Seq::empty()
    } else {
        let prev = client_rows(rows.drop_last());
        let r = rows.last();
        if !is_browser_row(r) && !(exists|k: int| 0 <= k < prev.len() && same_device(prev[k], r)) {
            prev.push(r)
        } else {
            prev
        }
    }
}

/// The browser rows, in order.
pub open spec fn browser_rows(rows: Seq<SessionRow>) -> Seq<SessionRow> {
    rows.filter(|r: SessionRow| is_browser_row(r))
}

/// The client view of a client row.
pub open spec fn client_view_of(v: ClientSessionView, r: SessionRow) -> bool {
    &&& v.platform@ == opt_text(r.platform)
    &&& v.platform_display@ == platform_display_spec(opt_text(r.platform))
    &&& v.device_id@ == opt_text(r.device_id)
    &&& v.device_name@ == opt_text(r.device_name)
    &&& v.client_version@ == opt_text(r.client_version)
    &&& v.created_ts == r.created_at
    &&& v.is_desktop_client == is_desktop_spec(opt_text(r.platform))
}

/// The browser view of a browser row, `current` being the reader's session.
pub open spec fn browser_view_of(v: BrowserSessionView, r: SessionRow, current: Option<i32>) -> bool {
    &&& v.id == r.id
    &&& v.source == source_of(r)
    &&& v.client@ == opt_text(r.client_label)
    &&& v.created_ts == r.created_at
    &&& v.is_current == (current == Some(r.id))
}

/// The name of a library, by id: the first pair whose id matches.
pub open spec fn name_lookup(names: Seq<(String, String)>, id: Seq<char>) -> Option<String>
    decreases names.len(),
{
    if names.len() == 0 {
        None
    } else if names[0].0@ == id {
        Some(names[0].1)
    } else {
        name_lookup(names.drop_first(), id)
    }
}

/// The view of a sync token row.
pub open spec fn token_view(r: SyncTokenRow, repo_name: Option<String>) -> SyncTokenView {
    SyncTokenView {
        id: r.id,
        repo_id: r.repo_id,
        repo_name: repo_name,
        device_name: r.peer_name,
        peer_ip: r.peer_ip,
        client_version: r.client_version,
        created_ts: r.created_at,
        last_sync_ts: r.last_sync_time,
        expires_at: r.expires_at,
        peer_id: r.peer_id,
    }
}

/// The view of a device trust row.
pub open spec fn trust_view(r: DeviceTrustRow) -> DeviceTrustView {
    DeviceTrustView {
        id: r.id,
        device_name: r.device_name,
        device_id: r.device_id,
        created_ts: r.created_at,
        expires_at: r.expires_at,
    }
}

fn lookup_name(names: &[(String, String)], id: &String) -> (r: Option<String>)
    ensures
        r == name_lookup(names@, id@),
{
    let mut i: usize = 0;
    proof {
        assert(names@.skip(0) =~= names@);
    }
    while i < names.len()
        invariant
            i <= names@.len(),
            name_lookup(names@, id@) == name_lookup(names@.skip(i as int), id@),
        decreases names@.len() - i,
    {
        proof {
            assert(names@.skip(i as int).drop_first() =~= names@.skip(i + 1));
        }
        if str_eq(names[i].0.as_str(), id.as_str()) {
            return Some(names[i].1.clone());
        }
        i = i + 1;
    }
    None
}

fn client_view(r: &SessionRow) -> (v: ClientSessionView)
    ensures
        client_view_of(v, *r),
{
    let platform = opt_string_or_empty(&r.platform);
    ClientSessionView {
        platform_display: platform_display_name(platform.as_str()),
        is_desktop_client: is_desktop_platform(platform.as_str()),
        platform,
        device_id: opt_string_or_empty(&r.device_id),
        device_name: opt_string_or_empty(&r.device_name),
        client_version: opt_string_or_empty(&r.client_version),
        created_ts: r.created_at,
    }
}

/// Assemble the inventory from the rows the repositories returned.
///
/// Browser sessions are listed one per row, the reader's own marked; client
/// sessions are collapsed to one per device (the first row of each
/// `platform` + `device_id`); sync tokens carry their library's name when it
/// still exists; devices and the summary are derived from those lists.
pub fn assemble_inventory(
    sessions: &[SessionRow],
    tokens: &[SyncTokenRow],
    trusts: &[DeviceTrustRow],
    repo_names: &[(String, String)],
    api_key_count: usize,
    current_session_id: Option<i32>,
    now: i64,
) -> (inv: CredentialInventory)
    ensures
        inv.api_key_count == api_key_count,
        inv.browsers@.len() == browser_rows(sessions@).len(),
        forall|k: int| 0 <= k < inv.browsers@.len()
            ==> browser_view_of(#[trigger] inv.browsers@[k], browser_rows(sessions@)[k], current_session_id),
        inv.clients@.len() == client_rows(sessions@).len(),
        forall|k: int| 0 <= k < inv.clients@.len()
            ==> client_view_of(#[trigger] inv.clients@[k], client_rows(sessions@)[k]),
        inv.sync_tokens@.len() == tokens@.len(),
        forall|k: int| 0 <= k < tokens@.len()
            ==> #[trigger] inv.sync_tokens@[k] == token_view(tokens@[k], name_lookup(repo_names@, tokens@[k].repo_id@)),
        inv.device_trusts@.len() == trusts@.len(),
        forall|k: int| 0 <= k < trusts@.len() ==> #[trigger] inv.device_trusts@[k] == trust_view(trusts@[k]),
        inv.devices@.len() == inv.clients@.len(),
        forall|i: int| 0 <= i < inv.clients@.len()
            ==> device_of(#[trigger] inv.devices@[i], inv.clients@[i], inv.sync_tokens@, inv.device_trusts@),
        inv.summary.browser_sessions == inv.browsers@.len(),
        inv.summary.client_devices == inv.clients@.len(),
        inv.summary.sync_tokens == tokens@.len(),
        inv.summary.api_keys == api_key_count,
        inv.summary.device_trusts == trusts@.len(),
        inv.summary.expired_sync_tokens == count_expired(inv.sync_tokens@, now),
        inv.summary.stale_sync_tokens == count_stale(inv.sync_tokens@, now),
        !inv.summary.two_fa_enabled,
{
    let mut browsers: Vec<BrowserSessionView> = Vec::new();
    let mut clients: Vec<ClientSessionView> = Vec::new();
    let mut i: usize = 0;
    proof {
        reveal(Seq::filter);
        assert(sessions@.take(0) =~= Seq::<SessionRow>::empty());
    }
    while i < sessions.len()
        invariant
            i <= sessions@.len(),
            browsers@.len() == browser_rows(sessions@.take(i as int)).len(),
            forall|k: int| 0 <= k < browsers@.len()
                ==> browser_view_of(#[trigger] browsers@[k], browser_rows(sessions@.take(i as int))[k], current_session_id),
            clients@.len() == client_rows(sessions@.take(i as int)).len(),
            forall|k: int| 0 <= k < clients@.len()
                ==> client_view_of(#[trigger] clients@[k], client_rows(sessions@.take(i as int))[k]),
        decreases sessions@.len() - i,
    {
        let r = &sessions[i];
        let ghost pre = sessions@.take(i as int);
        let ghost post = sessions@.take(i + 1);
        proof {
            reveal(Seq::filter);
            assert(post.drop_last() =~= pre);
            assert(post.last() == *r);
        }
        let source = match r.source {
            Some(s) => s,
            None => SessionSource::Web,
        };
        if source.is_browser() {
            let v = BrowserSessionView {
                id: r.id,
                source,
                client: opt_string_or_empty(&r.client_label),
                created_ts: r.created_at,
                is_current: match current_session_id {
                    Some(c) => c == r.id,
                    None => false,
                },
            };
            browsers.push(v);
            proof {
                assert(client_rows(post) == client_rows(pre));
                assert(browser_rows(post) == browser_rows(pre).push(*r));
            }
        } else {
            let platform = opt_string_or_empty(&r.platform);
            let device_id = opt_string_or_empty(&r.device_id);
            let mut seen = false;
            let mut k: usize = 0;
            while k < clients.len()
                invariant
                    k <= clients@.len(),
                    clients@.len() == client_rows(pre).len(),
                    forall|m: int| 0 <= m < clients@.len()
                        ==> client_view_of(#[trigger] clients@[m], client_rows(pre)[m]),
                    platform@ == opt_text(r.platform),
                    device_id@ == opt_text(r.device_id),
                    seen == (exists|m: int| 0 <= m < k && same_device(client_rows(pre)[m], *r)),
                decreases clients@.len() - k,
            {
                let same = str_eq(clients[k].platform.as_str(), platform.as_str()) && str_eq(
                    clients[k].device_id.as_str(),
                    device_id.as_str(),
                );
                proof {
                    assert(client_view_of(clients@[k as int], client_rows(pre)[k as int]));
                    assert(same == same_device(client_rows(pre)[k as int], *r));
                }
                if same {
                    seen = true;
                }
                k = k + 1;
            }
            proof {
                assert(browser_rows(post) == browser_rows(pre));
            }
            if !seen {
                clients.push(client_view(r));
                proof {
                    assert(client_rows(post) == client_rows(pre).push(*r));
                }
            } else {
                proof {
                    assert(client_rows(post) == client_rows(pre));
                }
            }
        }
        i = i + 1;
    }
    proof {
        assert(sessions@.take(i as int) =~= sessions@);
    }
    let mut token_views: Vec<SyncTokenView> = Vec::new();
    let mut t: usize = 0;
    while t < tokens.len()
        invariant
            t <= tokens@.len(),
            token_views@.len() == t,
            forall|k: int| 0 <= k < t
                ==> #[trigger] token_views@[k] == token_view(tokens@[k], name_lookup(repo_names@, tokens@[k].repo_id@)),
        decreases tokens@.len() - t,
    {
        let row = &tokens[t];
        let v = SyncTokenView {
            id: row.id,
            repo_id: row.repo_id.clone(),
            repo_name: lookup_name(repo_names, &row.repo_id),
            device_name: copy_opt_string(&row.peer_name),
            peer_ip: copy_opt_string(&row.peer_ip),
            client_version: copy_opt_string(&row.client_version),
            created_ts: row.created_at,
            last_sync_ts: row.last_sync_time,
            expires_at: row.expires_at,
            peer_id: copy_opt_string(&row.peer_id),
        };
        token_views.push(v);
        t = t + 1;
    }
    let mut trust_views: Vec<DeviceTrustView> = Vec::new();
    let mut d: usize = 0;
    while d < trusts.len()
        invariant
            d <= trusts@.len(),
            trust_views@.len() == d,
            forall|k: int| 0 <= k < d ==> #[trigger] trust_views@[k] == trust_view(trusts@[k]),
        decreases trusts@.len() - d,
    {
        let row = &trusts[d];
        trust_views.push(
            DeviceTrustView {
                id: row.id,
                device_name: copy_opt_string(&row.device_name),
                device_id: copy_opt_string(&row.device_id),
                created_ts: row.created_at,
                expires_at: row.expires_at,
            },
        );
        d = d + 1;
    }
    let devices = group_devices(clients.as_slice(), token_views.as_slice(), trust_views.as_slice());
    let mut inv = CredentialInventory {
        clients,
        browsers,
        sync_tokens: token_views,
        device_trusts: trust_views,
        devices,
        api_key_count,
        summary: CredentialSummary {
            browser_sessions: 0,
            client_devices: 0,
            sync_tokens: 0,
            api_keys: 0,
            device_trusts: 0,
            expired_sync_tokens: 0,
            stale_sync_tokens: 0,
            two_fa_enabled: false,
        },
    };
    inv.summary = summarize(&inv, now);
    inv
}

} // verus!
