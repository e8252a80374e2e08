//! WebDAV keys: per-library secrets for WebDAV clients. The server mints a
//! random key, shows it once and stores its SHA-256; a key is only ever
//! deleted, never changed. Who may mint, list and delete them is decided
//! here from what the stores report.

use vstd::prelude::*;
use crate::error::{AppError, bad_request, is_bad_request, is_not_found, not_found};
use crate::text::{owned, string_of, trim, trimmed_chars};
use crate::token::{generate_api_token, hash_token, token_hash_spec};

verus! {

/// The stored hash of a WebDAV key: hex of SHA-256 of its bytes. Keys are
/// high-entropy server secrets, so a fast hash suffices and keeps the
/// per-request check cheap.
pub fn hash_webdav_key(key: &str) -> (h: String)
    ensures
        h@ == token_hash_spec(key@),
        h@.len() == 64,
{
    hash_token(key)
}

/// Whether a user may use a library: its owner, or a member with any
/// permission. `owner_and_permission` is the owner of the library and the
/// user's membership permission, as one lookup reports them (none when the
/// library is unknown; a permission of none for a non-member).
pub open spec fn has_access_spec(owner_and_permission: Option<(i32, Option<String>)>, user_id: i32) -> bool {
    match owner_and_permission {
        Some((owner_id, permission)) => owner_id == user_id || permission is Some,
        None => false,
    }
}

/// Decide library access from the owner/permission lookup.
pub fn has_repo_access(owner_and_permission: &Option<(i32, Option<String>)>, user_id: i32) -> (b: bool)
    ensures
        b == has_access_spec(*owner_and_permission, user_id),
{
    match owner_and_permission {
        Some((owner_id, permission)) => *owner_id == user_id || permission.is_some(),
        None => false,
    }
}

/// Whether a user manages a library's keys: the library's owner, or a
/// server admin. `repo_owner` is the owner of the library when it exists,
/// `user_is_admin` the admin flag of the user when it exists.
pub fn is_owner_or_admin(repo_owner: Option<i32>, user_is_admin: Option<bool>, user_id: i32) -> (b: bool)
    ensures
        b == (repo_owner == Some(user_id) || user_is_admin == Some(true)),
{
    match repo_owner {
        Some(o) => if o == user_id {
            return true;
        },
        None => {},
    }
    match user_is_admin {
        Some(a) => a,
        None => false,
    }
}

/// The name a new key is stored under: the trimmed name, `default` when
/// blank.
pub open spec fn key_name_spec(name: Seq<char>) -> Seq<char> {
    if trim(name).len() == 0 {
        "default"@
    } else {
        trim(name)
    }
}

/// Normalize the requested key name.
pub fn key_name(name: &str) -> (n: String)
    ensures
        n@ == key_name_spec(name@),
{
    let t = trimmed_chars(name);
    if t.len() == 0 {
        owned("default")
    } else {
        string_of(t.as_slice())
    }
}

/// Whether a key may be minted on a library for a user: the library exists
/// (`encrypted` is its flag, none when it is unknown), is not encrypted,
/// and the user has access. Checked in that order.
pub fn check_key_creation(encrypted: Option<bool>, has_access: bool) -> (r: Result<(), AppError>)
    ensures
        encrypted is None ==> (r matches Err(e) && is_not_found(e, "Repository not found"@)),
        encrypted == Some(true) ==> (r matches Err(e) && is_bad_request(
            e,
            "WebDAV is not supported for encrypted libraries"@,
        )),
        encrypted == Some(false) && !has_access ==> r == Err::<(), AppError>(AppError::Forbidden),
        r is Ok <==> (encrypted == Some(false) && has_access),
{
    match encrypted {
        None => Err(not_found("Repository not found")),
        Some(true) => Err(bad_request("WebDAV is not supported for encrypted libraries")),
        Some(false) => if has_access {
            Ok(())
        } else {
            Err(AppError::Forbidden)
        },
    }
}

/// A freshly minted key: its stored name, its stored hash, and the
/// plaintext, shown once.
pub struct MintedWebdavKey {
    pub name: String,
    pub key_hash: String,
    pub key: String,
}

/// Mint a key once [`check_key_creation`] allowed it: a fresh API-grade
/// secret, its hash, and the normalized name.
pub fn mint_webdav_key(name: &str) -> (m: MintedWebdavKey)
    ensures
        m.name@ == key_name_spec(name@),
        m.key_hash@ == token_hash_spec(m.key@),
        m.key@.len() == 40,
{
    let key = generate_api_token();
    let key_hash = hash_webdav_key(key.as_str());
    MintedWebdavKey { name: key_name(name), key_hash, key }
}

/// Which keys of a library a user is shown.
#[derive(Debug, Clone, Copy, PartialEq, Eq, Structural)]
pub enum KeyListScope {
    /// Every key of the library, for its owner or an admin.
    All,
    /// Only the user's own keys, for any other member.
    Own,
}

/// Decide what a user may list: `Repository not found` for an unknown
/// library, `Forbidden` without access, then all keys for an owner or admin
/// and the user's own otherwise.
pub fn key_list_scope(repo_exists: bool, has_access: bool, owner_or_admin: bool) -> (r: Result<
    KeyListScope,
    AppError,
>)
    ensures
        !repo_exists ==> (r matches Err(e) && is_not_found(e, "Repository not found"@)),
        repo_exists && !has_access ==> r == Err::<KeyListScope, AppError>(AppError::Forbidden),
        repo_exists && has_access ==> r == Ok::<KeyListScope, AppError>(
            if owner_or_admin { KeyListScope::All } else { KeyListScope::Own },
        ),
{
    if !repo_exists {
        return Err(not_found("Repository not found"));
    }
    if !has_access {
        return Err(AppError::Forbidden);
    }
    if owner_or_admin {
        Ok(KeyListScope::All)
    } else {
        Ok(KeyListScope::Own)
    }
}

/// Whether a user may delete a key of a library: `key_owner` is the user
/// the key belongs to (none when the library has no such key). A user
/// deletes its own keys; an owner or admin any key.
pub fn check_key_deletion(key_owner: Option<i32>, user_id: i32, owner_or_admin: bool) -> (r: Result<(), AppError>)
    ensures
        key_owner is None ==> (r matches Err(e) && is_not_found(e, "WebDAV key not found"@)),
        key_owner matches Some(o) ==> (r is Ok <==> (owner_or_admin || o == user_id)),
        key_owner is Some && r is Err ==> r == Err::<(), AppError>(AppError::Forbidden),
{
    match key_owner {
        None => Err(not_found("WebDAV key not found")),
        Some(o) => if !owner_or_admin && o != user_id {
            Err(AppError::Forbidden)
        } else {
            Ok(())
        },
    }
}

} // verus!
