//! The client single-sign-on handshake: a client creates a link, the
//! browser opens it and completes it within a window, and the client polls
//! for the result. Every decision of that handshake is here; storing the
//! link's row is the caller's.

use vstd::prelude::*;
use crate::crypto::{hex_encode, hex_encode_spec, random_bytes};
use crate::error::{AppError, is_bad_request, is_not_found, not_found, bad_request};
use crate::text::{opt_text, owned, push_char, push_str, str_eq};

verus! {

/// How long after first opening a link the browser may complete it.
pub const SSO_COMPLETE_TIMEOUT_SECS: i64 = 300;
/// How long a link lives at most, from its creation.
pub const SSO_TOKEN_LIFETIME_SECS: i64 = 3600;

/// A single-sign-on link as it is stored.
#[derive(Debug, Clone, PartialEq, Eq)]
pub struct SsoTokenRow {
    pub token: String,
    pub platform: Option<String>,
    pub device_id: Option<String>,
    pub device_name: Option<String>,
    pub client_version: Option<String>,
    /// `pending`, `waiting`, `success` or `error`.
    pub status: String,
    pub username: Option<String>,
    pub api_token: Option<String>,
    pub created_at: i64,
    pub expires_at: Option<i64>,
    /// When the browser first opened the link.
    pub accessed_at: Option<i64>,
}

/// The answer to a client polling its link.
#[derive(Debug, Clone, PartialEq, Eq)]
pub enum PollResult {
    /// `{"status": <value>}`, verbatim.
    Status(String),
    /// The handshake finished: the account and its new API token.
    Success { username: String, api_token: String },
}

/// Whether a link is past its absolute lifetime at `now`.
pub open spec fn sso_expired(r: SsoTokenRow, now: i64) -> bool {
    r.expires_at matches Some(exp) && now > exp
}

/// Whether a link can still be completed at `now`: the browser opened it,
/// it is within its lifetime and within the window since that first visit.
pub fn check_link_valid(r: &SsoTokenRow, now: i64) -> (res: Result<(), AppError>)
    requires
        r.accessed_at matches Some(at) ==> i64::MIN <= now - at <= i64::MAX,
    ensures
        res is Ok <==> (r.accessed_at matches Some(at) && !sso_expired(*r, now) && now - at
            < SSO_COMPLETE_TIMEOUT_SECS),
        r.accessed_at is None ==> (res matches Err(e) && is_not_found(
            e,
            "Invalid link, please click the login button on the client again"@,
        )),
        r.accessed_at is Some && sso_expired(*r, now) ==> (res matches Err(e) && is_not_found(
            e,
            "This link has expired, please click the login button on the client again"@,
        )),
        r.accessed_at matches Some(at) && !sso_expired(*r, now) && now - at >= SSO_COMPLETE_TIMEOUT_SECS
            ==> (res matches Err(e) && is_bad_request(
            e,
            "Login timeout, please click the login button on the client again"@,
        )),
{
    let accessed_at = match r.accessed_at {
        None => return Err(not_found("Invalid link, please click the login button on the client again")),
        Some(at) => at,
    };
    if let Some(exp) = r.expires_at {
        if now > exp {
            return Err(not_found("This link has expired, please click the login button on the client again"));
        }
    }
    if now - accessed_at >= SSO_COMPLETE_TIMEOUT_SECS {
        return Err(bad_request("Login timeout, please click the login button on the client again"));
    }
    Ok(())
}

/// Whether the browser confirmation page may offer to complete a link.
pub fn link_is_valid(r: &SsoTokenRow, now: i64) -> (b: bool)
    requires
        r.accessed_at matches Some(at) ==> i64::MIN <= now - at <= i64::MAX,
    ensures
        b == (r.accessed_at matches Some(at) && !sso_expired(*r, now) && now - at < SSO_COMPLETE_TIMEOUT_SECS),
{
    check_link_valid(r, now).is_ok()
}

/// What opening a link in the browser does.
#[derive(Debug, Clone, Copy, PartialEq, Eq)]
pub enum OpenOutcome {
    /// The link was past its lifetime: it is deleted and refused.
    Expired,
    /// The first visit: the completion window starts now.
    FirstVisit,
    /// The link was opened before; the page says so.
    AlreadyVisited,
}

/// What opening a link at `now` does.
pub fn open_outcome(r: &SsoTokenRow, now: i64) -> (o: OpenOutcome)
    ensures
        o == if sso_expired(*r, now) {
            OpenOutcome::Expired
        } else if r.accessed_at is None {
            OpenOutcome::FirstVisit
        } else {
            OpenOutcome::AlreadyVisited
        },
{
    if let Some(exp) = r.expires_at {
        if now > exp {
            return OpenOutcome::Expired;
        }
    }
    if r.accessed_at.is_none() {
        OpenOutcome::FirstVisit
    } else {
        OpenOutcome::AlreadyVisited
    }
}

/// The answer to a poll at `now`. A link past its lifetime is gone
/// (`NotFound("token expired")`, and the row is deleted); a link not yet
/// successful answers its status verbatim; a successful one answers the
/// account and token while within the window since the browser's first
/// visit, and `error` otherwise.
pub fn poll_result(r: &SsoTokenRow, now: i64) -> (res: Result<PollResult, AppError>)
    requires
        r.accessed_at matches Some(at) ==> i64::MIN <= now - at <= i64::MAX,
    ensures
        sso_expired(*r, now) ==> (res matches Err(e) && is_not_found(e, "token expired"@)),
        !sso_expired(*r, now) && r.status@ != "success"@ ==> res == Ok::<PollResult, AppError>(
            PollResult::Status(r.status),
        ),
        !sso_expired(*r, now) && r.status@ == "success"@ ==> match res {
            Ok(PollResult::Success { username, api_token }) => r.accessed_at matches Some(at) && now - at
                < SSO_COMPLETE_TIMEOUT_SECS && r.username == Some(username) && r.api_token == Some(
                api_token,
            ),
            Ok(PollResult::Status(s)) => s@ == "error"@ && !(r.accessed_at matches Some(at) && now - at
                < SSO_COMPLETE_TIMEOUT_SECS && r.username is Some && r.api_token is Some),
            Err(_) => false,
        },
{
    if let Some(exp) = r.expires_at {
        if now > exp {
            return Err(not_found("token expired"));
        }
    }
    if !str_eq(r.status.as_str(), "success") {
        proof {
            reveal_strlit("success");
        }
        return Ok(PollResult::Status(r.status.clone()));
    }
    let within = match r.accessed_at {
        None => false,
        Some(at) => now - at < SSO_COMPLETE_TIMEOUT_SECS,
    };
    if within {
        match (&r.username, &r.api_token) {
            (Some(u), Some(t)) => {
                return Ok(PollResult::Success { username: u.clone(), api_token: t.clone() });
            },
            _ => {},
        }
    }
    Ok(PollResult::Status(owned("error")))
}

/// What completing a link does, once it is valid.
#[derive(Debug, Clone, Copy, PartialEq, Eq)]
pub enum CompleteStep {
    /// It was completed before: nothing new is minted.
    AlreadyDone,
    /// It is waiting: mint the account token and record success.
    Mint,
}

/// What completing a link at `now` does: refused while the link is not
/// valid or is in any state but waiting or success.
pub fn complete_step(r: &SsoTokenRow, now: i64) -> (res: Result<CompleteStep, AppError>)
    requires
        r.accessed_at matches Some(at) ==> i64::MIN <= now - at <= i64::MAX,
    ensures
        !(r.accessed_at matches Some(at) && !sso_expired(*r, now) && now - at < SSO_COMPLETE_TIMEOUT_SECS)
            ==> res is Err,
        (r.accessed_at matches Some(at) && !sso_expired(*r, now) && now - at < SSO_COMPLETE_TIMEOUT_SECS)
            ==> (if r.status@ == "success"@ {
            res == Ok::<CompleteStep, AppError>(CompleteStep::AlreadyDone)
        } else if r.status@ == "waiting"@ {
            res == Ok::<CompleteStep, AppError>(CompleteStep::Mint)
        } else {
            res matches Err(e) && is_bad_request(
                e,
                "Invalid or expired link, please click the login button on the client again"@,
            )
        }),
{
    match check_link_valid(r, now) {
        Err(e) => return Err(e),
        Ok(()) => {},
    }
    if str_eq(r.status.as_str(), "success") {
        return Ok(CompleteStep::AlreadyDone);
    }
    if !str_eq(r.status.as_str(), "waiting") {
        return Err(bad_request("Invalid or expired link, please click the login button on the client again"));
    }
    Ok(CompleteStep::Mint)
}

/// When a session token minted now for `ttl_days` expires.
pub fn session_expiry(now: i64, ttl_days: u64) -> (t: i64)
    requires
        ttl_days * 86400 <= i64::MAX,
        now + ttl_days * 86400 <= i64::MAX,
    ensures
        t == now + ttl_days * 86400,
{
    now + (ttl_days as i64) * 86400
}

/// When a link created at `now` expires.
pub fn link_expiry(now: i64) -> (t: i64)
    requires
        now + SSO_TOKEN_LIFETIME_SECS <= i64::MAX,
    ensures
        t == now + SSO_TOKEN_LIFETIME_SECS,
{
    now + SSO_TOKEN_LIFETIME_SECS
}

/// The description of the client behind a link, for the browser page: its
/// device name, `(platform)` and `v<version>`, each when non-empty, joined
/// by spaces; none when the client reported nothing.
pub open spec fn requester_spec(r: SsoTokenRow) -> Option<Seq<char>> {
    let name = opt_text(r.device_name);
    let platform = opt_text(r.platform);
    let version = opt_text(r.client_version);
    let parts = (if name.len() > 0 { seq![name] } else { Seq::empty() }) + (if platform.len() > 0 {
        seq![seq!['('] + platform + seq![')']]
    } else {
        Seq::empty()
    }) + (if version.len() > 0 { seq![seq!['v'] + version] } else { Seq::empty() });
    if parts.len() == 0 {
        None
    } else {
        Some(join_space(parts))
    }
}

/// `parts` joined by single spaces.
pub open spec fn join_space(parts: Seq<Seq<char>>) -> Seq<char>
    decreases parts.len(),
{
    if parts.len() <= 1 {
        if parts.len() == 1 { parts[0] } else { Seq::empty() }
    } else {
        join_space(parts.drop_last()) + seq![' '] + parts.last()
    }
}

fn push_part(out: &mut String, count: &mut usize, part: &str)
    ensures
        final(out)@ == if *old(count) == 0 { old(out)@ + part@ } else { old(out)@ + seq![' '] + part@ },
        *final(count) == if *old(count) < usize::MAX { *old(count) + 1 } else { *old(count) as int },
{
    if *count > 0 {
        push_char(out, ' ');
    }
    push_str(out, part);
    if *count < usize::MAX {
        *count = *count + 1;
    }
}

/// The description of the client behind a link.
pub fn sso_link_requester(r: &SsoTokenRow) -> (d: Option<String>)
    ensures
        match d {
            Some(s) => requester_spec(*r) == Some(s@),
            None => requester_spec(*r) is None,
        },
{
    let mut out = String::new();
    let mut count: usize = 0;
    let ghost name = opt_text(r.device_name);
    let ghost platform = opt_text(r.platform);
    let ghost version = opt_text(r.client_version);
    let ghost mut parts: Seq<Seq<char>> = Seq::empty();
    if let Some(n) = &r.device_name {
        if !n.as_str().is_empty() {
            push_part(&mut out, &mut count, n.as_str());
            proof {
                parts = parts.push(n@);
            }
        }
    }
    proof {
        assert(out@ == join_space(parts));
        assert(count == parts.len());
    }
    if let Some(p) = &r.platform {
        if !p.as_str().is_empty() {
            let mut t = String::new();
            push_char(&mut t, '(');
            push_str(&mut t, p.as_str());
            push_char(&mut t, ')');
            proof {
                assert(t@ =~= seq!['('] + p@ + seq![')']);
            }
            let ghost before = parts;
            push_part(&mut out, &mut count, t.as_str());
            proof {
                parts = parts.push(t@);
                assert(parts.drop_last() =~= before);
            }
        }
    }
    proof {
        assert(out@ == join_space(parts));
        assert(count == parts.len());
    }
    if let Some(v) = &r.client_version {
        if !v.as_str().is_empty() {
            let mut t = String::new();
            push_char(&mut t, 'v');
            push_str(&mut t, v.as_str());
            proof {
                assert(t@ =~= seq!['v'] + v@);
            }
            let ghost before = parts;
            push_part(&mut out, &mut count, t.as_str());
            proof {
                parts = parts.push(t@);
                assert(parts.drop_last() =~= before);
            }
        }
    }
    proof {
        let expect = (if name.len() > 0 { seq![name] } else { Seq::empty() }) + (if platform.len() > 0 {
            seq![seq!['('] + platform + seq![')']]
        } else {
            Seq::empty()
        }) + (if version.len() > 0 { seq![seq!['v'] + version] } else { Seq::empty() });
        assert(parts =~= expect);
    }
    if count == 0 {
        return None;
    }
    Some(out)
}

/// A fresh client-login token: the hex of 16 random bytes.
pub fn generate_client_login_token() -> (t: String)
    ensures
        exists|b: Seq<u8>| b.len() == 16 && t@ == hex_encode_spec(b),
{
    let bytes = random_bytes(16);
    hex_encode(bytes.as_slice())
}

} // verus!
