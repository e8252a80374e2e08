//! The rules of unified API keys that need no database: a key's name, its
//! lifetime, the shape of its library scope, and how a stored key is shown.

use vstd::prelude::*;
use crate::error::{AppError, bad_request, is_bad_request};
use crate::split::{split_char, lemma_split_from, lemma_next_sep_bounds, next_sep_exec};
use crate::token::{generate_api_token, hash_token, token_hash_spec};
use crate::text::{chars_of, decimal, owned, push_decimal, push_str, slice_range, str_eq, string_of, trim, trim_bounds, trimmed_chars};

verus! {

/// Longest accepted key name, in characters.
pub const MAX_NAME_LEN: usize = 255;
/// Number of leading secret characters kept for display.
pub const PREFIX_LEN: usize = 8;
/// Seconds in a day.
pub const SECONDS_PER_DAY: i64 = 86400;

/// How long a new key should live.
#[derive(Clone, Copy, Debug, PartialEq, Eq, Structural)]
pub enum KeyExpiry {
    Never,
    InDays(u64),
    At(i64),
}

/// Everything needed to mint a key.
pub struct NewApiKey {
    pub name: Option<String>,
    pub capabilities: Vec<String>,
    pub all_repos: bool,
    pub repo_permissions: Vec<(String, String)>,
    pub expires: KeyExpiry,
}

/// A partial update. `None` leaves the corresponding property alone.
pub struct ApiKeyUpdate {
    pub name: Option<String>,
    pub capabilities: Option<Vec<String>>,
    pub all_repos: Option<bool>,
    pub repo_permissions: Option<Vec<(String, String)>>,
    pub expires: Option<KeyExpiry>,
}

/// A key as exposed to its owner. The secret is never part of this.
#[derive(Clone, Debug)]
pub struct ApiKeyView {
    pub id: i32,
    pub name: String,
    pub key_prefix: Option<String>,
    pub capabilities: Vec<String>,
    pub all_repos: bool,
    pub repos: Vec<(String, String)>,
    pub created_at: i64,
    pub expires_at: Option<i64>,
    pub last_used_at: Option<i64>,
}

/// A freshly created key: the only time the plaintext is available.
pub struct CreatedApiKey {
    pub view: ApiKeyView,
    pub secret: String,
}

/// One grantable capability, for rendering a picker.
pub struct CatalogEntry {
    pub id: &'static str,
    pub domain: &'static str,
    pub write: bool,
}

/// A named starting point offered by the UI.
pub struct CatalogPreset {
    pub id: &'static str,
    pub capabilities: Vec<&'static str>,
}

/// A stored key row.
#[derive(Clone, Debug)]
pub struct ApiKeyRow {
    pub id: i32,
    pub name: String,
    pub key_prefix: Option<String>,
    /// The canonical comma-separated capability list.
    pub capabilities: String,
    pub all_repos: bool,
    pub created_at: i64,
    pub expires_at: Option<i64>,
    pub last_used_at: Option<i64>,
}

/// One library a key is restricted to, with its read/write ceiling.
#[derive(Clone, Debug)]
pub struct ApiKeyBinding {
    pub repo_id: String,
    pub permission: String,
}

/// The name a key is stored under: the trimmed name, cut to
/// [`MAX_NAME_LEN`] characters; `API key` when it is missing or blank.
pub open spec fn normalized_name_spec(name: Option<String>) -> Seq<char> {
    let t = match name {
        Some(n) => trim(n@),
        None => Seq::empty(),
    };
    if t.len() == 0 {
        "API key"@
    } else if t.len() > MAX_NAME_LEN {
        t.take(MAX_NAME_LEN as int)
    } else {
        t
    }
}

/// Normalize a requested key name.
pub fn normalize_name(name: Option<String>) -> (n: String)
    ensures
        n@ == normalized_name_spec(name),
{
    let t = match &name {
        Some(n) => trimmed_chars(n.as_str()),
        None => Vec::new(),
    };
    if t.len() == 0 {
        owned("API key")
    } else if t.len() > MAX_NAME_LEN {
        string_of(slice_range(t.as_slice(), 0, MAX_NAME_LEN).as_slice())
    } else {
        string_of(t.as_slice())
    }
}

/// What [`resolve_expiry`] decides: the absolute expiry, or the message of
/// the `BadRequest` it refuses with. `max_days == 0` means unbounded.
pub open spec fn expiry_spec(max_days: u64, expiry: KeyExpiry, now: i64) -> Result<Option<int>, Seq<char>> {
    match expiry {
        KeyExpiry::Never => if max_days > 0 {
            Err("keys may not be created without an expiry; the maximum lifetime is "@ + decimal(max_days as nat) + " days"@)
        } else {
            Ok(None)
        },
        KeyExpiry::InDays(days) => if days == 0 {
            Err("expires_in_days must be positive"@)
        } else if max_days > 0 && days > max_days {
            Err("expires_in_days exceeds the maximum of "@ + decimal(max_days as nat) + " days"@)
        } else {
            Ok(Some(now + days * SECONDS_PER_DAY))
        },
        KeyExpiry::At(ts) => if ts <= now {
            Err("expires_at must be in the future"@)
        } else if max_days > 0 && ts > now + max_days * SECONDS_PER_DAY {
            Err("expires_at exceeds the maximum lifetime of "@ + decimal(max_days as nat) + " days"@)
        } else {
            Ok(Some(ts as int))
        },
    }
}

/// A lifetime within the bound is granted as asked: an expiry in the future
/// at or before `now + max_days` days (or with no bound) is kept as given, a
/// positive number of days within the bound expires that many days from
/// now, and "never" is granted exactly when there is no bound. Whatever is
/// granted lies in the future and within the bound.
pub proof fn requested_lifetimes_are_kept(max_days: u64, expiry: KeyExpiry, now: i64)
    ensures
        expiry is At && expiry->At_0 > now && (max_days == 0 || expiry->At_0 <= now + max_days * SECONDS_PER_DAY)
            ==> expiry_spec(max_days, expiry, now) == Ok::<Option<int>, Seq<char>>(Some(expiry->At_0 as int)),
        expiry is InDays && expiry->InDays_0 > 0 && (max_days == 0 || expiry->InDays_0 <= max_days) ==> expiry_spec(
            max_days,
            expiry,
            now,
        ) == Ok::<Option<int>, Seq<char>>(Some(now + expiry->InDays_0 * SECONDS_PER_DAY)),
        expiry == KeyExpiry::Never ==> (expiry_spec(max_days, expiry, now) == Ok::<Option<int>, Seq<char>>(None)
            <==> max_days == 0),
        expiry_spec(max_days, expiry, now) matches Ok(Some(t)) ==> t > now && (max_days > 0 ==> t <= now
            + max_days * SECONDS_PER_DAY),
{
    if let KeyExpiry::InDays(d) = expiry {
        if d > 0 && (max_days == 0 || d <= max_days) {
            assert(d * SECONDS_PER_DAY > 0) by (nonlinear_arith)
                requires
                    d > 0,
            ;
            if max_days > 0 {
                assert(d * SECONDS_PER_DAY <= max_days * SECONDS_PER_DAY) by (nonlinear_arith)
                    requires
                        d <= max_days,
                ;
            }
        }
    }
}

/// Turn the requested lifetime into an absolute expiry at `now`, within the
/// configured maximum of `max_days` days (`0`: unbounded).
pub fn resolve_expiry(max_days: u64, expiry: KeyExpiry, now: i64) -> (r: Result<Option<i64>, AppError>)
    requires
        expiry matches KeyExpiry::InDays(d) ==> (d == 0 || (max_days > 0 && d > max_days) || (d
            * SECONDS_PER_DAY <= i64::MAX && now + d * SECONDS_PER_DAY <= i64::MAX)),
        expiry matches KeyExpiry::At(ts) ==> (ts <= now || max_days == 0 || (max_days
            * SECONDS_PER_DAY <= i64::MAX && now + max_days * SECONDS_PER_DAY <= i64::MAX)),
    ensures
        match expiry_spec(max_days, expiry, now) {
            Ok(Some(t)) => r == Ok::<Option<i64>, AppError>(Some(t as i64)),
            Ok(None) => r == Ok::<Option<i64>, AppError>(None),
            Err(m) => r matches Err(e) && is_bad_request(e, m),
        },
        expiry is At && expiry->At_0 > now && (max_days == 0 || expiry->At_0 <= now + max_days * SECONDS_PER_DAY)
            ==> r == Ok::<Option<i64>, AppError>(Some(expiry->At_0)),
        expiry is InDays && expiry->InDays_0 > 0 && (max_days == 0 || expiry->InDays_0 <= max_days) ==> r == Ok::<
            Option<i64>,
            AppError,
        >(Some((now + expiry->InDays_0 * SECONDS_PER_DAY) as i64)),
        expiry == KeyExpiry::Never ==> (r == Ok::<Option<i64>, AppError>(None) <==> max_days == 0),
        r matches Ok(Some(t)) ==> t > now && (max_days > 0 ==> t <= now + max_days * SECONDS_PER_DAY),
{
    proof {
        requested_lifetimes_are_kept(max_days, expiry, now);
    }
    match expiry {
        KeyExpiry::Never => {
            if max_days > 0 {
                let mut m = owned("keys may not be created without an expiry; the maximum lifetime is ");
                push_decimal(&mut m, max_days);
                push_str(&mut m, " days");
                return Err(AppError::BadRequest(m));
            }
            Ok(None)
        },
        KeyExpiry::InDays(days) => {
            if days == 0 {
                return Err(bad_request("expires_in_days must be positive"));
            }
            if max_days > 0 && days > max_days {
                let mut m = owned("expires_in_days exceeds the maximum of ");
                push_decimal(&mut m, max_days);
                push_str(&mut m, " days");
                return Err(AppError::BadRequest(m));
            }
            Ok(Some(now + (days as i64) * SECONDS_PER_DAY))
        },
        KeyExpiry::At(timestamp) => {
            if timestamp <= now {
                return Err(bad_request("expires_at must be in the future"));
            }
            if max_days > 0 && timestamp > now + (max_days as i64) * SECONDS_PER_DAY {
                let mut m = owned("expires_at exceeds the maximum lifetime of ");
                push_decimal(&mut m, max_days);
                push_str(&mut m, " days");
                return Err(AppError::BadRequest(m));
            }
            Ok(Some(timestamp))
        },
    }
}

} // verus!

verus! {

/// Whether a requested permission is one a binding may carry.
pub open spec fn valid_permission(p: Seq<char>) -> bool {
    p == "r"@ || p == "rw"@
}

/// The first problem among `perms[i..]`, scanning in order: a library named
/// twice, or a permission other than `r` / `rw`.
pub open spec fn binding_problem_from(perms: Seq<(String, String)>, i: int) -> Option<Seq<char>>
    decreases perms.len() - i,
{
    if i < 0 || i >= perms.len() {
        None
    } else if exists|j: int| 0 <= j < i && perms[j].0@ == perms[i].0@ {
        Some("duplicate library "@ + perms[i].0@)
    } else if !valid_permission(perms[i].1@) {
        Some("permission for "@ + perms[i].0@ + " must be \"r\" or \"rw\""@)
    } else {
        binding_problem_from(perms, i + 1)
    }
}

/// What [`check_bindings`] decides: the bindings to persist, or the message
/// of the `BadRequest` it refuses with.
pub open spec fn bindings_spec(all_repos: bool, perms: Seq<(String, String)>) -> Result<Seq<(Seq<char>, Seq<char>)>, Seq<char>> {
    if all_repos {
        if perms.len() > 0 {
            Err("all_repos cannot be combined with repo_permissions"@)
        } else {
            Ok(Seq::empty())
        }
    } else if perms.len() == 0 {
        Err("a key restricted to specific libraries needs at least one library"@)
    } else {
        match binding_problem_from(perms, 0) {
            Some(m) => Err(m),
            None => Ok(perms.map_values(|p: (String, String)| (p.0@, p.1@))),
        }
    }
}

/// Check the library scope of a key, returning the bindings to persist: a
/// key for every library carries none; a restricted key names at least one
/// library, each once, each with `r` or `rw`. Whether the caller may read
/// each library is checked against live membership afterwards.
pub fn check_bindings(all_repos: bool, repo_permissions: &[(String, String)]) -> (r: Result<Vec<ApiKeyBinding>, AppError>)
    ensures
        match bindings_spec(all_repos, repo_permissions@) {
            Ok(bs) => r matches Ok(v) && v@.map_values(|b: ApiKeyBinding| (b.repo_id@, b.permission@)) == bs,
            Err(m) => r matches Err(e) && is_bad_request(e, m),
        },
{
    if all_repos {
        if repo_permissions.len() > 0 {
            return Err(bad_request("all_repos cannot be combined with repo_permissions"));
        }
        let v: Vec<ApiKeyBinding> = Vec::new();
        proof {
            assert(v@.map_values(|b: ApiKeyBinding| (b.repo_id@, b.permission@)) =~= Seq::<(Seq<char>, Seq<char>)>::empty());
        }
        return Ok(v);
    }
    if repo_permissions.len() == 0 {
        return Err(bad_request("a key restricted to specific libraries needs at least one library"));
    }
    let mut bindings: Vec<ApiKeyBinding> = Vec::new();
    let mut i: usize = 0;
    while i < repo_permissions.len()
        invariant
            i <= repo_permissions@.len(),
            !all_repos,
            repo_permissions@.len() > 0,
            binding_problem_from(repo_permissions@, 0) == binding_problem_from(repo_permissions@, i as int),
            bindings@.map_values(|b: ApiKeyBinding| (b.repo_id@, b.permission@)) == repo_permissions@.take(i as int).map_values(|p: (String, String)| (p.0@, p.1@)),
        decreases repo_permissions@.len() - i,
    {
        let (repo_id, permission) = (&repo_permissions[i].0, &repo_permissions[i].1);
        let mut dup = false;
        let mut j: usize = 0;
        while j < i
            invariant
                j <= i < repo_permissions@.len(),
                repo_id@ == repo_permissions@[i as int].0@,
                dup == exists|k: int| 0 <= k < j && repo_permissions@[k].0@ == repo_permissions@[i as int].0@,
            decreases i - j,
        {
            if str_eq(repo_permissions[j].0.as_str(), repo_id.as_str()) {
                dup = true;
            }
            j = j + 1;
        }
        proof {
            assert(dup == exists|k: int| 0 <= k < i && repo_permissions@[k].0@ == repo_permissions@[i as int].0@);
        }
        if dup {
            proof {
                assert(binding_problem_from(repo_permissions@, i as int) == Some("duplicate library "@ + repo_permissions@[i as int].0@));
            }
            let mut m = owned("duplicate library ");
            push_str(&mut m, repo_id.as_str());
            return Err(AppError::BadRequest(m));
        }
        if !(str_eq(permission.as_str(), "r") || str_eq(permission.as_str(), "rw")) {
            proof {
                assert(!valid_permission(repo_permissions@[i as int].1@));
                assert(binding_problem_from(repo_permissions@, i as int) == Some("permission for "@ + repo_permissions@[i as int].0@ + " must be \"r\" or \"rw\""@));
            }
            let mut m = owned("permission for ");
            push_str(&mut m, repo_id.as_str());
            push_str(&mut m, " must be \"r\" or \"rw\"");
            return Err(AppError::BadRequest(m));
        }
        proof {
            assert(valid_permission(repo_permissions@[i as int].1@));
            assert(binding_problem_from(repo_permissions@, i as int) == binding_problem_from(repo_permissions@, i + 1));
        }
        let ghost before = bindings@;
        let nb = ApiKeyBinding { repo_id: repo_id.clone(), permission: permission.clone() };
        bindings.push(nb);
        i = i + 1;
        proof {
            let f = |b: ApiKeyBinding| (b.repo_id@, b.permission@);
            let g = |p: (String, String)| (p.0@, p.1@);
            assert(bindings@ == before.push(nb));
            assert(bindings@.map_values(f) =~= before.map_values(f).push(f(nb)));
            assert(repo_permissions@.take(i as int).map_values(g) =~= repo_permissions@.take(i - 1).map_values(g).push(g(repo_permissions@[i - 1])));
        }
    }
    proof {
        assert(repo_permissions@.take(i as int) =~= repo_permissions@);
    }
    Ok(bindings)
}

/// The capability ids of a stored list: split on `,`, trimmed, blanks
/// dropped. Lenient on purpose, so an id this build does not know still
/// lists.
pub open spec fn capability_ids(list: Seq<char>) -> Seq<Seq<char>> {
    split_char(list, ',').map_values(|p: Seq<char>| trim(p)).filter(|p: Seq<char>| p.len() > 0)
}

/// A key as shown to its owner, with the given library bindings.
pub fn view_of(key: ApiKeyRow, repos: Vec<(String, String)>) -> (v: ApiKeyView)
    ensures
        v.id == key.id,
        v.name == key.name,
        v.key_prefix == key.key_prefix,
        v.capabilities@.map_values(|c: String| c@) == capability_ids(key.capabilities@),
        v.all_repos == key.all_repos,
        v.repos == repos,
        v.created_at == key.created_at,
        v.expires_at == key.expires_at,
        v.last_used_at == key.last_used_at,
{
    let s = chars_of(key.capabilities.as_str());
    let ghost sv = s@;
    let ghost keep = |p: Seq<char>| p.len() > 0;
    let ghost tr = |p: Seq<char>| trim(p);
    let mut caps: Vec<String> = Vec::new();
    let mut i: usize = 0;
    proof {
        assert(sv.skip(0) =~= sv);
        assert(caps@.map_values(|c: String| c@) + split_char(sv.skip(0), ',').map_values(tr).filter(keep) =~= capability_ids(sv));
    }
    loop
        invariant_except_break
            caps@.map_values(|c: String| c@) + split_char(sv.skip(i as int), ',').map_values(tr).filter(keep) == capability_ids(sv),
        invariant
            i <= sv.len(),
            s@ == sv,
            sv == key.capabilities@,
            keep == (|p: Seq<char>| p.len() > 0),
            tr == (|p: Seq<char>| trim(p)),
        ensures
            caps@.map_values(|c: String| c@) == capability_ids(sv),
        decreases sv.len() - i,
    {
        let j = next_sep_exec(s.as_slice(), ',', i);
        proof {
            lemma_split_from(sv, ',', i as int);
            lemma_next_sep_bounds(sv, ',', i as int);
        }
        let piece = slice_range(s.as_slice(), i, j);
        let (a, b) = trim_bounds(piece.as_slice());
        let ghost rest_pieces = if j < sv.len() { split_char(sv.skip(j + 1), ',') } else { Seq::<Seq<char>>::empty() };
        let ghost tp = trim(piece@);
        let ghost before = caps@.map_values(|c: String| c@);
        proof {
            let all = split_char(sv.skip(i as int), ',');
            assert(all == seq![piece@] + rest_pieces);
            assert(all.map_values(tr) =~= seq![tp] + rest_pieces.map_values(tr));
            Seq::filter_distributes_over_add(seq![tp], rest_pieces.map_values(tr), keep);
            reveal(Seq::filter);
            assert(seq![tp].drop_last() =~= Seq::<Seq<char>>::empty());
            assert(seq![tp].last() == tp);
            assert(Seq::<Seq<char>>::empty().filter(keep) =~= Seq::<Seq<char>>::empty());
            if tp.len() > 0 {
                assert(seq![tp].filter(keep) =~= seq![tp]);
            } else {
                assert(seq![tp].filter(keep) =~= Seq::<Seq<char>>::empty());
            }
            assert(before + all.map_values(tr).filter(keep) == capability_ids(sv));
            assert(tp.len() == b - a);
        }
        if a < b {
            let t = string_of(slice_range(piece.as_slice(), a, b).as_slice());
            caps.push(t);
            proof {
                assert(caps@.map_values(|c: String| c@) =~= before.push(tp));
                assert(before.push(tp) + rest_pieces.map_values(tr).filter(keep) =~= before + (seq![tp] + rest_pieces.map_values(tr).filter(keep)));
            }
        } else {
            proof {
                assert(before + rest_pieces.map_values(tr).filter(keep) =~= before + (Seq::<Seq<char>>::empty() + rest_pieces.map_values(tr).filter(keep)));
            }
        }
        proof {
            assert(caps@.map_values(|c: String| c@) + rest_pieces.map_values(tr).filter(keep) == capability_ids(sv));
        }
        if j >= s.len() {
            proof {
                assert(rest_pieces.map_values(tr) =~= Seq::<Seq<char>>::empty());
                reveal(Seq::filter);
                assert(rest_pieces.map_values(tr).filter(keep) =~= Seq::<Seq<char>>::empty());
                assert(caps@.map_values(|c: String| c@) + Seq::<Seq<char>>::empty() =~= caps@.map_values(|c: String| c@));
            }
            break;
        }
        i = j + 1;
    }
    ApiKeyView {
        id: key.id,
        name: key.name,
        key_prefix: key.key_prefix,
        capabilities: caps,
        all_repos: key.all_repos,
        repos,
        created_at: key.created_at,
        expires_at: key.expires_at,
        last_used_at: key.last_used_at,
    }
}

/// The library scope an update leaves a key with, which is what gets
/// validated: the requested `all_repos` flag or the stored one, and the
/// requested bindings or the stored ones, except that a key widened to every
/// library without naming bindings keeps none.
pub open spec fn update_scope_spec(
    requested_all: Option<bool>,
    requested_repos: Option<Seq<(String, String)>>,
    stored_all: bool,
    current: Seq<(String, String)>,
) -> (bool, Seq<(String, String)>) {
    let all = match requested_all {
        Some(b) => b,
        None => stored_all,
    };
    if all && requested_repos is None {
        (all, Seq::empty())
    } else {
        (all, match requested_repos {
            Some(v) => v,
            None => current,
        })
    }
}

/// The scope to validate for an update, so that a partial update cannot
/// combine a new capability set with a stale library scope.
pub fn update_scope(
    requested_all: Option<bool>,
    requested_repos: Option<Vec<(String, String)>>,
    stored_all: bool,
    current: Vec<(String, String)>,
) -> (r: (bool, Vec<(String, String)>))
    ensures
        (r.0, r.1@) == update_scope_spec(
            requested_all,
            match requested_repos {
                Some(v) => Some(v@),
                None => None,
            },
            stored_all,
            current@,
        ),
{
    let all = match requested_all {
        Some(b) => b,
        None => stored_all,
    };
    let widening = all && requested_repos.is_none();
    if widening {
        return (all, Vec::new());
    }
    match requested_repos {
        Some(v) => (all, v),
        None => (all, current),
    }
}

/// The bindings of one key, in stored order, out of the bindings loaded for
/// several keys (key id, library, permission).
pub open spec fn bindings_of_spec(bindings: Seq<(i32, String, String)>, key_id: i32) -> Seq<(String, String)>
    decreases bindings.len(),
{
    if bindings.len() == 0 {
        Seq::empty()
    } else {
        let rest = bindings_of_spec(bindings.drop_last(), key_id);
        let b = bindings.last();
        if b.0 == key_id {
            rest.push((b.1, b.2))
        } else {
            rest
        }
    }
}

/// The bindings of one key among those of several.
pub fn bindings_of(bindings: &[(i32, String, String)], key_id: i32) -> (r: Vec<(String, String)>)
    ensures
        r@ == bindings_of_spec(bindings@, key_id),
{
    let mut r: Vec<(String, String)> = Vec::new();
    let mut i: usize = 0;
    while i < bindings.len()
        invariant
            i <= bindings@.len(),
            r@ == bindings_of_spec(bindings@.take(i as int), key_id),
        decreases bindings@.len() - i,
    {
        proof {
            let t = bindings@.take(i + 1);
            assert(t.drop_last() =~= bindings@.take(i as int));
            assert(t.last() == bindings@[i as int]);
        }
        let b = &bindings[i];
        if b.0 == key_id {
            r.push((b.1.clone(), b.2.clone()));
        }
        i = i + 1;
    }
    proof {
        assert(bindings@.take(i as int) =~= bindings@);
    }
    r
}

/// A freshly minted key secret: the plaintext, shown once; the hash that is
/// stored; and the leading characters kept for display.
pub struct MintedKey {
    pub secret: String,
    pub key_hash: String,
    pub key_prefix: String,
}

/// Mint the secret of a new key.
pub fn mint_key() -> (m: MintedKey)
    ensures
        m.secret@.len() == 40,
        m.key_hash@ == token_hash_spec(m.secret@),
        m.key_prefix@ == m.secret@.take(PREFIX_LEN as int),
{
    let secret = generate_api_token();
    let key_hash = hash_token(secret.as_str());
    let chars = chars_of(secret.as_str());
    let key_prefix = string_of(slice_range(chars.as_slice(), 0, PREFIX_LEN).as_slice());
    proof {
        assert(chars@.subrange(0, PREFIX_LEN as int) =~= secret@.take(PREFIX_LEN as int));
    }
    MintedKey { secret, key_hash, key_prefix }
}

} // verus!
