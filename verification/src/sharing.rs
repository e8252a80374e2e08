//! Share links: the URL a link is handed out under, how a stored link is
//! shown and updated, when a link still resolves, and the short-lived
//! memory of whether a link's creator may still act on its library.

use vstd::prelude::*;
use crate::dirent::S_IFDIR;
use crate::error::{AppError, bad_request, is_bad_request, is_not_found, not_found};
use crate::password::{verify_password, verify_spec};
use crate::repo::{build_op_url, strip_trailing};
use crate::text::{chars_of, copy_opt_string, owned, push_str, str_eq};
use crate::token::{token_expired, token_expired_spec};

verus! {

/// The message of a link that does not resolve.
pub const LINK_NOT_FOUND: &'static str = "Link not found";
/// The message of a link that ran out of time.
pub const LINK_EXPIRED: &'static str = "Link has expired";
/// The message of an upload link that does not resolve.
pub const UPLOAD_LINK_NOT_FOUND: &'static str = "Upload link not found";
/// The message of an upload link that ran out of time.
pub const UPLOAD_LINK_EXPIRED: &'static str = "Upload link has expired";

/// Why a link stopped resolving.
#[derive(Debug, Clone, Copy, PartialEq, Eq)]
pub enum LinkFailure {
    /// Unknown token, revoked link, deleted library, or a creator who lost
    /// access; kept indistinguishable on purpose.
    Unknown,
    Expired,
}

/// The classification of a link lookup's error: its own `NotFound` is a
/// dead link (expired when it says so), anything else is no link failure.
pub open spec fn link_failure_of(err: AppError) -> Option<LinkFailure> {
    match err {
        AppError::NotFound(m) => if m@ == "Link has expired"@ || m@ == "Upload link has expired"@ {
            Some(LinkFailure::Expired)
        } else {
            Some(LinkFailure::Unknown)
        },
        _ => None,
    }
}

/// Classify the result of a share- or upload-link lookup for the HTML pages.
pub fn classify_link_failure(err: &AppError) -> (r: Option<LinkFailure>)
    ensures
        r == link_failure_of(*err),
{
    match err {
        AppError::NotFound(msg) => {
            if str_eq(msg.as_str(), LINK_EXPIRED) || str_eq(msg.as_str(), UPLOAD_LINK_EXPIRED) {
                Some(LinkFailure::Expired)
            } else {
                Some(LinkFailure::Unknown)
            }
        },
        _ => None,
    }
}

/// A share link as it is stored.
#[derive(Debug, Clone, PartialEq, Eq)]
pub struct ShareLinkRow {
    pub id: i32,
    pub repo_id: String,
    pub creator_id: i32,
    pub path: String,
    pub token: String,
    /// The stored password hash, when the link has a password.
    pub password: Option<String>,
    pub expires_at: Option<i64>,
    pub created_at: i64,
    /// `d` for a directory, `f` for a file.
    pub s_type: String,
    pub view_cnt: i64,
    pub description: Option<String>,
}

/// A share link as the API shows it.
#[derive(Debug, Clone, PartialEq, Eq)]
pub struct ShareLinkInfo {
    pub token: String,
    pub link: String,
    pub repo_id: String,
    pub path: String,
    pub created_at: i64,
    pub has_password: bool,
    pub expire_at: Option<i64>,
    pub s_type: String,
    pub view_cnt: i64,
    pub description: Option<String>,
}

/// The absolute URL of a link: `<site>/d/<token>/` for a directory,
/// `<site>/f/<token>/` otherwise, the site URL without trailing slashes.
pub open spec fn share_link_url_spec(s_type: Seq<char>, token: Seq<char>, base_url: Seq<char>) -> Seq<char> {
    strip_trailing(base_url, '/') + seq!['/'] + (if s_type == seq!['d'] { seq!['d'] } else { seq!['f'] })
        + seq!['/'] + token + seq!['/']
}

/// The absolute URL a share link is handed out under.
pub fn share_link_url(s_type: &str, token: &str, base_url: &str) -> (u: String)
    ensures
        u@ == share_link_url_spec(s_type@, token@, base_url@),
{
    let t = chars_of(s_type);
    let is_dir = t.len() == 1 && t[0] == 'd';
    proof {
        if s_type@ == seq!['d'] {
            assert(t@.len() == 1 && t@[0] == 'd');
        }
        if is_dir {
            assert(s_type@ =~= seq!['d']);
        }
    }
    let mut u = build_op_url(base_url, if is_dir { "d" } else { "f" }, token);
    push_str(&mut u, "/");
    proof {
        reveal_strlit("/");
        reveal_strlit("d");
        reveal_strlit("f");
        assert(u@ =~= share_link_url_spec(s_type@, token@, base_url@));
    }
    u
}

/// How a stored link is shown.
pub open spec fn link_info_spec(l: ShareLinkRow, base_url: Seq<char>, info: ShareLinkInfo) -> bool {
    &&& info.token == l.token
    &&& info.link@ == share_link_url_spec(l.s_type@, l.token@, base_url)
    &&& info.repo_id == l.repo_id
    &&& info.path == l.path
    &&& info.created_at == l.created_at
    &&& info.has_password == l.password is Some
    &&& info.expire_at == l.expires_at
    &&& info.s_type == l.s_type
    &&& info.view_cnt == l.view_cnt
    &&& info.description == l.description
}

/// The API view of a stored link.
pub fn share_link_info(l: &ShareLinkRow, base_url: &str) -> (info: ShareLinkInfo)
    ensures
        link_info_spec(*l, base_url@, info),
{
    ShareLinkInfo {
        token: l.token.clone(),
        link: share_link_url(l.s_type.as_str(), l.token.as_str(), base_url),
        repo_id: l.repo_id.clone(),
        path: l.path.clone(),
        created_at: l.created_at,
        has_password: l.password.is_some(),
        expire_at: l.expires_at,
        s_type: l.s_type.clone(),
        view_cnt: l.view_cnt,
        description: copy_opt_string(&l.description),
    }
}

/// The links of a path that the caller created, shown in order: a link is
/// a bearer capability, so other members' tokens are not listed.
pub fn own_links(links: &[ShareLinkRow], creator_id: i32, base_url: &str) -> (out: Vec<ShareLinkInfo>)
    ensures
        out@.len() == links@.filter(|l: ShareLinkRow| l.creator_id == creator_id).len(),
        forall|k: int|
            0 <= k < out@.len() ==> link_info_spec(
                links@.filter(|l: ShareLinkRow| l.creator_id == creator_id)[k],
                base_url@,
                #[trigger] out@[k],
            ),
{
    let ghost keep = |l: ShareLinkRow| l.creator_id == creator_id;
    let mut out: Vec<ShareLinkInfo> = Vec::new();
    let mut i: usize = 0;
    proof {
        reveal(Seq::filter);
        assert(links@.take(0).filter(keep) =~= Seq::<ShareLinkRow>::empty());
    }
    while i < links.len()
        invariant
            i <= links@.len(),
            keep == (|l: ShareLinkRow| l.creator_id == creator_id),
            out@.len() == links@.take(i as int).filter(keep).len(),
            forall|k: int|
                0 <= k < out@.len() ==> link_info_spec(
                    links@.take(i as int).filter(keep)[k],
                    base_url@,
                    #[trigger] out@[k],
                ),
        decreases links@.len() - i,
    {
        let ghost before = links@.take(i as int).filter(keep);
        proof {
            let t = links@.take(i + 1);
            assert(t.drop_last() =~= links@.take(i as int));
            assert(t.last() == links@[i as int]);
            reveal(Seq::filter);
        }
        if links[i].creator_id == creator_id {
            let info = share_link_info(&links[i], base_url);
            out.push(info);
            proof {
                let f = links@.take(i + 1).filter(keep);
                assert(f == before.push(links@[i as int]));
                assert forall|k: int| 0 <= k < out@.len() implies link_info_spec(
                    f[k],
                    base_url@,
                    #[trigger] out@[k],
                ) by {
                    if k < before.len() {
                        assert(f[k] == before[k]);
                    }
                }
            }
        }
        i = i + 1;
    }
    proof {
        assert(links@.take(i as int) =~= links@);
    }
    out
}

/// The type of entry a new link points at: the root is a directory; any
/// other path is a directory exactly when its entry's mode is the directory
/// mode, and a file otherwise (also when no entry is found).
pub open spec fn share_entry_type_spec(path: Seq<char>, entry_mode: Option<u32>) -> Seq<char> {
    if path.len() == 0 || path == seq!['/'] {
        seq!['d']
    } else {
        match entry_mode {
            Some(m) => if m == S_IFDIR { seq!['d'] } else { seq!['f'] },
            None => seq!['f'],
        }
    }
}

/// `d` or `f` for the entry a new link points at, given the mode of the
/// entry found at the path.
pub fn share_entry_type(path: &str, entry_mode: Option<u32>) -> (t: String)
    ensures
        t@ == share_entry_type_spec(path@, entry_mode),
{
    let v = chars_of(path);
    proof {
        reveal_strlit("d");
        reveal_strlit("f");
        if path@ == seq!['/'] {
            assert(v@.len() == 1 && v@[0] == '/');
        }
        if v@.len() == 1 && v@[0] == '/' {
            assert(path@ =~= seq!['/']);
        }
    }
    if v.len() == 0 || (v.len() == 1 && v[0] == '/') {
        return owned("d");
    }
    match entry_mode {
        Some(m) => if m == S_IFDIR {
            owned("d")
        } else {
            owned("f")
        },
        None => owned("f"),
    }
}

/// When a link valid for `days` from `now` expires.
pub fn expiry_after_days(now: i64, days: i64) -> (t: i64)
    requires
        i64::MIN <= days * 86400 <= i64::MAX,
        i64::MIN <= now + days * 86400 <= i64::MAX,
    ensures
        t == now + days * 86400,
{
    now + days * 86400
}

/// Whether a looked-up link still resolves at `now`: not past its expiry,
/// and its creator may still act on its library. Expiry is reported first.
pub fn check_link_resolves(
    expires_at: Option<i64>,
    now: i64,
    creator_may_access: bool,
    not_found_msg: &str,
    expired_msg: &str,
) -> (r: Result<(), AppError>)
    ensures
        token_expired_spec(expires_at, now) ==> (r matches Err(e) && is_not_found(e, expired_msg@)),
        !token_expired_spec(expires_at, now) && !creator_may_access ==> (r matches Err(e)
            && is_not_found(e, not_found_msg@)),
        r is Ok <==> (!token_expired_spec(expires_at, now) && creator_may_access),
{
    if token_expired(expires_at, now) {
        return Err(not_found(expired_msg));
    }
    if !creator_may_access {
        return Err(not_found(not_found_msg));
    }
    Ok(())
}

/// Only a link's creator may see or change it; anyone else is told it does
/// not exist.
pub fn check_link_owner(creator_id: i32, user_id: i32) -> (r: Result<(), AppError>)
    ensures
        r is Ok <==> creator_id == user_id,
        r matches Err(e) ==> is_not_found(e, "Share link not found"@),
{
    if creator_id != user_id {
        return Err(not_found("Share link not found"));
    }
    Ok(())
}

/// A link for an encrypted library is refused.
pub fn check_shareable(encrypted: bool) -> (r: Result<(), AppError>)
    ensures
        r is Ok <==> !encrypted,
        r matches Err(e) ==> is_bad_request(e, "cannot create share link for encrypted library"@),
{
    if encrypted {
        return Err(bad_request("cannot create share link for encrypted library"));
    }
    Ok(())
}

/// Whether a request may open a link: a link without a password is open;
/// one with a password needs the password given, which must verify.
pub fn link_password_ok(stored_hash: Option<&str>, provided: Option<&str>, fallback_iterations: u32) -> (ok: bool)
    ensures
        ok == match stored_hash {
            None => true,
            Some(h) => match provided {
                None => false,
                Some(p) => verify_spec(p@, h@, fallback_iterations),
            },
        },
{
    match stored_hash {
        None => true,
        Some(h) => match provided {
            None => false,
            Some(p) => verify_password(p, h, fallback_iterations),
        },
    }
}

/// What a link looks like after an update: a field the update sets takes
/// the new value; a field it leaves alone, or clears, keeps the stored one.
pub fn updated_link_info(
    l: &ShareLinkRow,
    new_password_hash: Option<Option<String>>,
    new_expire_at: Option<Option<i64>>,
    new_description: Option<Option<String>>,
    base_url: &str,
) -> (info: ShareLinkInfo)
    ensures
        info.token == l.token,
        info.link@ == share_link_url_spec(l.s_type@, l.token@, base_url@),
        info.repo_id == l.repo_id,
        info.path == l.path,
        info.created_at == l.created_at,
        info.has_password == (new_password_hash matches Some(Some(_)) || l.password is Some),
        info.expire_at == match new_expire_at {
            Some(Some(t)) => Some(t),
            _ => l.expires_at,
        },
        info.s_type == l.s_type,
        info.view_cnt == l.view_cnt,
        info.description == match new_description {
            Some(Some(d)) => Some(d),
            _ => l.description,
        },
{
    let has_password = match new_password_hash {
        Some(Some(_)) => true,
        _ => l.password.is_some(),
    };
    let expire_at = match new_expire_at {
        Some(Some(t)) => Some(t),
        _ => l.expires_at,
    };
    let description = match new_description {
        Some(Some(d)) => Some(d),
        _ => copy_opt_string(&l.description),
    };
    ShareLinkInfo {
        token: l.token.clone(),
        link: share_link_url(l.s_type.as_str(), l.token.as_str(), base_url),
        repo_id: l.repo_id.clone(),
        path: l.path.clone(),
        created_at: l.created_at,
        has_password,
        expire_at,
        s_type: l.s_type.clone(),
        view_cnt: l.view_cnt,
        description,
    }
}

// ─── Whether a link's creator may still act ──────────────────────────────

/// How long an answer is remembered, in milliseconds.
pub const LINK_CREATOR_CACHE_TTL_MS: u64 = 30000;
/// The most answers remembered at once.
pub const LINK_CREATOR_CACHE_MAX: usize = 10000;

/// One remembered answer: may `creator_id` act on `repo_id` (for writing
/// when `write`), and when it was checked.
#[derive(Debug, Clone, PartialEq, Eq)]
pub struct CreatorAccess {
    pub creator_id: i32,
    pub repo_id: String,
    pub write: bool,
    pub allowed: bool,
    pub checked_at_ms: u64,
}

/// Remembered answers to "may this link's creator still act on its
/// library", each question at most once. Times are milliseconds on a clock
/// that does not go backwards.
pub struct LinkCreatorCache {
    entries: Vec<CreatorAccess>,
}

/// Whether an entry answers the question `(creator_id, repo_id, write)`.
pub open spec fn answers(e: CreatorAccess, creator_id: i32, repo_id: Seq<char>, write: bool) -> bool {
    e.creator_id == creator_id && e.repo_id@ == repo_id && e.write == write
}

/// Whether an answer checked at `checked_at` is still good at `now`.
pub open spec fn fresh(checked_at: u64, now: u64) -> bool {
    checked_at <= now && now - checked_at < LINK_CREATOR_CACHE_TTL_MS
}

/// The answers of `s` still good at `now`, in order.
pub open spec fn fresh_only(s: Seq<CreatorAccess>, now: u64) -> Seq<CreatorAccess>
    decreases s.len(),
{
    if s.len() == 0 {
        Seq::empty()
    } else {
        let rest = fresh_only(s.drop_last(), now);
        if fresh(s.last().checked_at_ms, now) {
            rest.push(s.last())
        } else {
            rest
        }
    }
}

impl LinkCreatorCache {
    /// The remembered answers.
    pub closed spec fn view(&self) -> Seq<CreatorAccess> {
        self.entries@
    }

    /// No question is answered twice, and the cache is within its bound.
    pub open spec fn well_formed(&self) -> bool {
        &&& self.view().len() <= LINK_CREATOR_CACHE_MAX
        &&& forall|a: int, b: int|
            0 <= a < b < self.view().len() ==> !answers(
                #[trigger] self.view()[a],
                #[trigger] self.view()[b].creator_id,
                self.view()[b].repo_id@,
                self.view()[b].write,
            )
    }

    /// What the cache says of a question at `now`: the remembered answer
    /// while it is fresh.
    pub open spec fn lookup_spec(&self, creator_id: i32, repo_id: Seq<char>, write: bool, now: u64) -> Option<bool> {
        if exists|k: int|
            0 <= k < self.view().len() && answers(#[trigger] self.view()[k], creator_id, repo_id, write)
                && fresh(self.view()[k].checked_at_ms, now) {
            let k = choose|k: int|
                0 <= k < self.view().len() && answers(#[trigger] self.view()[k], creator_id, repo_id, write)
                    && fresh(self.view()[k].checked_at_ms, now);
            Some(self.view()[k].allowed)
        } else {
            None
        }
    }

    /// An empty cache.
    pub fn new() -> (c: Self)
        ensures
            c.well_formed(),
            c.view().len() == 0,
    {
        LinkCreatorCache { entries: Vec::new() }
    }

    /// The remembered answer to a question, while it is fresh.
    pub fn lookup(&self, creator_id: i32, repo_id: &str, write: bool, now: u64) -> (r: Option<bool>)
        requires
            self.well_formed(),
        ensures
            r == self.lookup_spec(creator_id, repo_id@, write, now),
    {
        let mut i: usize = 0;
        while i < self.entries.len()
            invariant
                i <= self.entries@.len(),
                self.well_formed(),
                forall|k: int|
                    0 <= k < i ==> !(answers(#[trigger] self.entries@[k], creator_id, repo_id@, write)
                        && fresh(self.entries@[k].checked_at_ms, now)),
            decreases self.entries@.len() - i,
        {
            let e = &self.entries[i];
            if e.creator_id == creator_id && e.write == write && str_eq(e.repo_id.as_str(), repo_id)
                && e.checked_at_ms <= now && now - e.checked_at_ms < LINK_CREATOR_CACHE_TTL_MS {
                proof {
                    let k = choose|k: int|
                        0 <= k < self.view().len() && answers(
                            #[trigger] self.view()[k],
                            creator_id,
                            repo_id@,
                            write,
                        ) && fresh(self.view()[k].checked_at_ms, now);
                    if k != i {
                        if k < i {
                            assert(answers(self.view()[k], self.view()[i as int].creator_id, self.view()[i as int].repo_id@, self.view()[i as int].write));
                        } else {
                            assert(answers(self.view()[i as int], self.view()[k].creator_id, self.view()[k].repo_id@, self.view()[k].write));
                        }
                    }
                }
                return Some(e.allowed);
            }
            i = i + 1;
        }
        None
    }

    /// Remember an answer checked at `now`, replacing any earlier answer to
    /// the same question. A full cache first drops what is no longer fresh,
    /// and is emptied when that does not make room.
    pub fn store(&mut self, creator_id: i32, repo_id: &str, write: bool, allowed: bool, now: u64)
        requires
            old(self).well_formed(),
        ensures
            final(self).well_formed(),
            final(self).lookup_spec(creator_id, repo_id@, write, now) == Some(allowed),
            forall|k: int|
                0 <= k < final(self).view().len() ==> (answers(
                    #[trigger] final(self).view()[k],
                    creator_id,
                    repo_id@,
                    write,
                ) || old(self).view().contains(final(self).view()[k])),
    {
        if self.entries.len() >= LINK_CREATOR_CACHE_MAX {
            self.retain_fresh(now);
            if self.entries.len() >= LINK_CREATOR_CACHE_MAX {
                self.entries = Vec::new();
            }
        }
        let ghost mid = self.entries@;
        let mut kept: Vec<CreatorAccess> = Vec::new();
        let mut i: usize = 0;
        while i < self.entries.len()
            invariant
                i <= self.entries@.len(),
                self.entries@ == mid,
                mid.len() < LINK_CREATOR_CACHE_MAX,
                kept@.len() <= i,
                forall|k: int| 0 <= k < kept@.len() ==> !answers(#[trigger] kept@[k], creator_id, repo_id@, write),
                forall|k: int| 0 <= k < kept@.len() ==> mid.contains(#[trigger] kept@[k]),
                forall|a: int, b: int|
                    0 <= a < b < kept@.len() ==> !answers(
                        #[trigger] kept@[a],
                        #[trigger] kept@[b].creator_id,
                        kept@[b].repo_id@,
                        kept@[b].write,
                    ),
                forall|a: int, b: int|
                    0 <= a < b < mid.len() ==> !answers(
                        #[trigger] mid[a],
                        #[trigger] mid[b].creator_id,
                        mid[b].repo_id@,
                        mid[b].write,
                    ),
                forall|k: int, m: int|
                    0 <= k < kept@.len() && i <= m < mid.len() ==> !answers(
                        #[trigger] kept@[k],
                        #[trigger] mid[m].creator_id,
                        mid[m].repo_id@,
                        mid[m].write,
                    ),
            decreases self.entries@.len() - i,
        {
            let e = &self.entries[i];
            if !(e.creator_id == creator_id && e.write == write && str_eq(e.repo_id.as_str(), repo_id)) {
                let c = CreatorAccess {
                    creator_id: e.creator_id,
                    repo_id: e.repo_id.clone(),
                    write: e.write,
                    allowed: e.allowed,
                    checked_at_ms: e.checked_at_ms,
                };
                proof {
                    assert(mid[i as int] == c);
                }
                kept.push(c);
            }
            i = i + 1;
        }
        let entry = CreatorAccess {
            creator_id,
            repo_id: owned(repo_id),
            write,
            allowed,
            checked_at_ms: now,
        };
        let ghost before = kept@;
        kept.push(entry);
        self.entries = kept;
        proof {
            let v = self.view();
            let n = before.len() as int;
            assert(v[n] == entry);
            assert(answers(v[n], creator_id, repo_id@, write) && fresh(v[n].checked_at_ms, now));
            assert forall|k: int|
                0 <= k < v.len() && answers(#[trigger] v[k], creator_id, repo_id@, write) && fresh(
                    v[k].checked_at_ms,
                    now,
                ) implies k == n by {
                if k < n {
                    assert(v[k] == before[k]);
                }
            }
            assert forall|a: int, b: int| 0 <= a < b < v.len() implies !answers(
                #[trigger] v[a],
                #[trigger] v[b].creator_id,
                v[b].repo_id@,
                v[b].write,
            ) by {
                assert(v[a] == before[a]);
                if b < n {
                    assert(v[b] == before[b]);
                }
            }
        }
    }

    /// Drop the answers that are no longer fresh at `now`.
    fn retain_fresh(&mut self, now: u64)
        requires
            old(self).well_formed(),
        ensures
            final(self).well_formed(),
            final(self).view() == fresh_only(old(self).view(), now),
            forall|k: int| 0 <= k < final(self).view().len() ==> old(self).view().contains(#[trigger] final(self).view()[k]),
            final(self).view().len() <= old(self).view().len(),
    {
        let ghost orig = self.entries@;
        let mut kept: Vec<CreatorAccess> = Vec::new();
        let mut i: usize = 0;
        while i < self.entries.len()
            invariant
                i <= self.entries@.len(),
                self.entries@ == orig,
                kept@.len() <= i,
                forall|k: int| 0 <= k < kept@.len() ==> orig.contains(#[trigger] kept@[k]),
                forall|a: int, b: int|
                    0 <= a < b < kept@.len() ==> !answers(
                        #[trigger] kept@[a],
                        #[trigger] kept@[b].creator_id,
                        kept@[b].repo_id@,
                        kept@[b].write,
                    ),
                forall|a: int, b: int|
                    0 <= a < b < orig.len() ==> !answers(
                        #[trigger] orig[a],
                        #[trigger] orig[b].creator_id,
                        orig[b].repo_id@,
                        orig[b].write,
                    ),
                forall|k: int, m: int|
                    0 <= k < kept@.len() && i <= m < orig.len() ==> !answers(
                        #[trigger] kept@[k],
                        #[trigger] orig[m].creator_id,
                        orig[m].repo_id@,
                        orig[m].write,
                    ),
                orig.len() <= LINK_CREATOR_CACHE_MAX,
                kept@ == fresh_only(orig.take(i as int), now),
            decreases self.entries@.len() - i,
        {
            proof {
                let t = orig.take(i + 1);
                assert(t.drop_last() =~= orig.take(i as int));
                assert(t.last() == orig[i as int]);
            }
            let e = &self.entries[i];
            if e.checked_at_ms <= now && now - e.checked_at_ms < LINK_CREATOR_CACHE_TTL_MS {
                let c = CreatorAccess {
                    creator_id: e.creator_id,
                    repo_id: e.repo_id.clone(),
                    write: e.write,
                    allowed: e.allowed,
                    checked_at_ms: e.checked_at_ms,
                };
                proof {
                    assert(orig[i as int] == c);
                }
                kept.push(c);
            }
            i = i + 1;
        }
        proof {
            assert(orig.take(i as int) =~= orig);
        }
        self.entries = kept;
    }

    /// Forget the answers about `user_id`: those for one library, or all of
    /// them when no library is given.
    pub fn invalidate(&mut self, user_id: i32, repo_id: Option<&str>)
        requires
            old(self).well_formed(),
        ensures
            final(self).well_formed(),
            forall|k: int|
                0 <= k < final(self).view().len() ==> old(self).view().contains(#[trigger] final(self).view()[k]),
            forall|k: int|
                0 <= k < final(self).view().len() ==> (#[trigger] final(self).view()[k]).creator_id != user_id
                    || match repo_id {
                    Some(r) => final(self).view()[k].repo_id@ != r@,
                    None => false,
                },
            forall|k: int|
                0 <= k < old(self).view().len() && ((#[trigger] old(self).view()[k]).creator_id != user_id
                    || match repo_id {
                    Some(r) => old(self).view()[k].repo_id@ != r@,
                    None => false,
                }) ==> final(self).view().contains(old(self).view()[k]),
    {
        let ghost orig = self.entries@;
        let mut kept: Vec<CreatorAccess> = Vec::new();
        let mut i: usize = 0;
        while i < self.entries.len()
            invariant
                i <= self.entries@.len(),
                self.entries@ == orig,
                kept@.len() <= i,
                orig.len() <= LINK_CREATOR_CACHE_MAX,
                forall|k: int| 0 <= k < kept@.len() ==> orig.contains(#[trigger] kept@[k]),
                forall|k: int|
                    0 <= k < kept@.len() ==> (#[trigger] kept@[k]).creator_id != user_id || match repo_id {
                        Some(r) => kept@[k].repo_id@ != r@,
                        None => false,
                    },
                forall|k: int|
                    0 <= k < i && ((#[trigger] orig[k]).creator_id != user_id || match repo_id {
                        Some(r) => orig[k].repo_id@ != r@,
                        None => false,
                    }) ==> kept@.contains(orig[k]),
                forall|a: int, b: int|
                    0 <= a < b < kept@.len() ==> !answers(
                        #[trigger] kept@[a],
                        #[trigger] kept@[b].creator_id,
                        kept@[b].repo_id@,
                        kept@[b].write,
                    ),
                forall|a: int, b: int|
                    0 <= a < b < orig.len() ==> !answers(
                        #[trigger] orig[a],
                        #[trigger] orig[b].creator_id,
                        orig[b].repo_id@,
                        orig[b].write,
                    ),
                forall|k: int, m: int|
                    0 <= k < kept@.len() && i <= m < orig.len() ==> !answers(
                        #[trigger] kept@[k],
                        #[trigger] orig[m].creator_id,
                        orig[m].repo_id@,
                        orig[m].write,
                    ),
            decreases self.entries@.len() - i,
        {
            let e = &self.entries[i];
            let stays = if e.creator_id != user_id {
                true
            } else {
                match repo_id {
                    Some(r) => !str_eq(e.repo_id.as_str(), r),
                    None => false,
                }
            };
            if stays {
                let c = CreatorAccess {
                    creator_id: e.creator_id,
                    repo_id: e.repo_id.clone(),
                    write: e.write,
                    allowed: e.allowed,
                    checked_at_ms: e.checked_at_ms,
                };
                proof {
                    assert(orig[i as int] == c);
                }
                let ghost before = kept@;
                kept.push(c);
                proof {
                    assert(kept@[before.len() as int] == c);
                    assert forall|k: int|
                        0 <= k < i + 1 && ((#[trigger] orig[k]).creator_id != user_id || match repo_id {
                            Some(r) => orig[k].repo_id@ != r@,
                            None => false,
                        }) implies kept@.contains(orig[k]) by {
                        if k < i {
                            let j = choose|j: int| 0 <= j < before.len() && before[j] == orig[k];
                            assert(kept@[j] == orig[k]);
                        } else {
                            assert(kept@[before.len() as int] == orig[k]);
                        }
                    }
                }
            }
            i = i + 1;
        }
        self.entries = kept;
    }
}

} // verus!
