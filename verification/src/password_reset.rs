//! Password reset links: how a link's token is minted and stored, the URL
//! it is mailed under, and when it may still be used.

use vstd::prelude::*;
use crate::crypto::{hex_encode, hex_encode_spec, lemma_hex_encode_shape, random_bytes};
use crate::error::{AppError, bad_request, is_bad_request};
use crate::password::{password_problem, validate_password};
use crate::repo::{build_op_url, strip_trailing};
use crate::text::push_str;
use crate::token::token_hash_spec;

verus! {

/// How long a reset link stays valid: three days.
pub const RESET_TOKEN_TTL_SECONDS: i64 = 259200;

/// What creating a reset link gives back: the URL to mail, when the
/// address belongs to an account.
pub struct PasswordResetTokenResult {
    pub raw_token: String,
    pub reset_url: Option<String>,
}

/// The SHA-256 hash of a raw token, in hex, as it is stored.
pub fn hash_token(token: &str) -> (h: String)
    ensures
        h@ == token_hash_spec(token@),
{
    crate::token::hash_token(token)
}

/// A fresh raw token (the hex of 32 random bytes) and its stored hash.
pub fn generate_reset_token() -> (r: (String, String))
    ensures
        exists|b: Seq<u8>| b.len() == 32 && r.0@ == hex_encode_spec(b),
        r.1@ == token_hash_spec(r.0@),
        r.0@.len() == 64,
{
    let bytes = random_bytes(32);
    proof {
        lemma_hex_encode_shape(bytes@);
    }
    let raw = hex_encode(bytes.as_slice());
    let hash = hash_token(raw.as_str());
    (raw, hash)
}

/// The URL a reset link is mailed under:
/// `<site>/accounts/password/reset/<token>/`.
pub fn reset_url(site_url: &str, raw_token: &str) -> (u: String)
    ensures
        u@ == strip_trailing(site_url@, '/') + "/"@ + "accounts/password/reset"@ + "/"@ + raw_token@ + "/"@,
{
    let mut u = build_op_url(site_url, "accounts/password/reset", raw_token);
    push_str(&mut u, "/");
    u
}

/// Whether a stored link may still be used at `now`: not used yet and
/// not past its expiry.
pub fn reset_token_usable(used: bool, expires_at: i64, now: i64) -> (b: bool)
    ensures
        b == (!used && expires_at > now),
{
    !used && expires_at > now
}

/// When a link created at `now` expires.
pub fn reset_token_expiry(now: i64) -> (t: i64)
    requires
        now + RESET_TOKEN_TTL_SECONDS <= i64::MAX,
    ensures
        t == now + RESET_TOKEN_TTL_SECONDS,
{
    now + RESET_TOKEN_TTL_SECONDS
}

/// Whether a reset may go ahead: the link must be usable, then the new
/// password acceptable. A weak password does not burn the link.
pub fn check_reset(link_usable: bool, new_password: &str, min_length: u32, require_strong: bool) -> (r: Result<(), AppError>)
    ensures
        !link_usable ==> (r matches Err(e) && is_bad_request(e, "This reset link is invalid or has expired."@)),
        link_usable ==> match password_problem(new_password@, min_length, require_strong) {
            None => r is Ok,
            Some(m) => r matches Err(e) && is_bad_request(e, m),
        },
{
    if !link_usable {
        return Err(bad_request("This reset link is invalid or has expired."));
    }
    match validate_password(new_password, min_length, require_strong) {
        Ok(()) => Ok(()),
        Err(m) => Err(AppError::BadRequest(m)),
    }
}

} // verus!
