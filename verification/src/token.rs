//! Bearer tokens: how they are minted, how they are stored, and when a
//! stored sync token may still be used.

use vstd::prelude::*;
use vstd::utf8::encode_utf8;
use crate::crypto::{
    base64_url_encode, base64_url_nopad, hex_encode, hex_encode_spec, lemma_hex_encode_shape,
    random_bytes, sha256, sha256_digest, utf8_bytes,
};
use crate::text::{chars_of, push_char};

verus! {

/// Length in hex digits of an API or sync token (20 random bytes).
pub const TOKEN_LEN: usize = 40;

/// Seconds in a day, the unit of a sync token's lifetime.
pub const SECONDS_PER_DAY: i64 = 86400;

/// A fresh API token: the hex of 20 random bytes.
pub fn generate_api_token() -> (t: String)
    ensures
        exists|b: Seq<u8>| b.len() == 20 && t@ == hex_encode_spec(b),
        t@.len() == TOKEN_LEN,
{
    let bytes = random_bytes(TOKEN_LEN / 2);
    proof {
        lemma_hex_encode_shape(bytes@);
    }
    hex_encode(bytes.as_slice())
}

/// A fresh sync token: the hex of 20 random bytes.
pub fn generate_sync_token() -> (t: String)
    ensures
        exists|b: Seq<u8>| b.len() == 20 && t@ == hex_encode_spec(b),
        t@.len() == TOKEN_LEN,
{
    let bytes = random_bytes(TOKEN_LEN / 2);
    proof {
        lemma_hex_encode_shape(bytes@);
    }
    hex_encode(bytes.as_slice())
}

/// A fresh share-link token: unpadded URL-safe base64 of 16 random bytes.
pub fn generate_share_link_token() -> (t: String)
    ensures
        exists|b: Seq<u8>| b.len() == 16 && t@ == base64_url_nopad(b),
{
    let bytes = random_bytes(16);
    base64_url_encode(bytes.as_slice())
}

/// A fresh upload-link token: unpadded URL-safe base64 of 16 random bytes.
pub fn generate_upload_link_token() -> (t: String)
    ensures
        exists|b: Seq<u8>| b.len() == 16 && t@ == base64_url_nopad(b),
{
    let bytes = random_bytes(16);
    base64_url_encode(bytes.as_slice())
}

/// `char::to_ascii_uppercase`.
pub open spec fn ascii_upper(c: char) -> char {
    if 'a' <= c && c <= 'z' {
        ((c as u32) - 32) as char
    } else {
        c
    }
}

/// `str::to_uppercase` on ASCII text, character by character.
pub open spec fn ascii_upper_seq(s: Seq<char>) -> Seq<char> {
    Seq::new(s.len(), |i: int| ascii_upper(s[i]))
}

/// A fresh two-factor backup code: the uppercase hex of 10 random bytes,
/// 80 bits of entropy.
pub fn generate_backup_code() -> (t: String)
    ensures
        exists|b: Seq<u8>| b.len() == 10 && t@ == ascii_upper_seq(hex_encode_spec(b)),
        t@.len() == 20,
{
    let bytes = random_bytes(10);
    let hex = hex_encode(bytes.as_slice());
    proof {
        lemma_hex_encode_shape(bytes@);
    }
    let v = chars_of(hex.as_str());
    let mut out = String::new();
    let mut i: usize = 0;
    while i < v.len()
        invariant
            i <= v@.len(),
            out@ == ascii_upper_seq(v@).take(i as int),
        decreases v@.len() - i,
    {
        let c = v[i];
        let u = if 'a' <= c && c <= 'z' {
            ((c as u8) - 32) as char
        } else {
            c
        };
        push_char(&mut out, u);
        i = i + 1;
        proof {
            assert(out@ =~= ascii_upper_seq(v@).take(i as int));
        }
    }
    proof {
        assert(ascii_upper_seq(v@).take(i as int) =~= ascii_upper_seq(v@));
    }
    out
}

/// What a bearer token is stored as: hex of SHA-256 of its bytes.
pub open spec fn token_hash_spec(token: Seq<char>) -> Seq<char> {
    hex_encode_spec(sha256(encode_utf8(token)))
}

/// The SHA-256 hash of a bearer token, in hex, for database storage.
pub fn hash_token(token: &str) -> (h: String)
    ensures
        h@ == token_hash_spec(token@),
        h@.len() == 64,
{
    let digest = sha256_digest(utf8_bytes(token));
    proof {
        lemma_hex_encode_shape(digest@);
    }
    hex_encode(digest.as_slice())
}

/// Whether a token with this expiry is past it at `now`; a token without
/// one never expires.
pub open spec fn token_expired_spec(expires_at: Option<i64>, now: i64) -> bool {
    match expires_at {
        Some(exp) => now > exp,
        None => false,
    }
}

/// Whether a stored token has expired.
pub fn token_expired(expires_at: Option<i64>, now: i64) -> (b: bool)
    ensures
        b == token_expired_spec(expires_at, now),
{
    match expires_at {
        Some(exp) => now > exp,
        None => false,
    }
}

/// When a sync token minted at `now` expires: `ttl_days` later, or never for
/// a lifetime of zero.
pub open spec fn sync_token_expiry_spec(now: i64, ttl_days: u64) -> Option<int> {
    if ttl_days > 0 {
        Some(now + ttl_days * 86400)
    } else {
        None
    }
}

/// The expiry to record for a sync token minted now.
pub fn sync_token_expiry(now: i64, ttl_days: u64) -> (e: Option<i64>)
    requires
        ttl_days * 86400 <= i64::MAX,
        now + ttl_days * 86400 <= i64::MAX,
    ensures
        match e {
            Some(t) => sync_token_expiry_spec(now, ttl_days) == Some(t as int),
            None => sync_token_expiry_spec(now, ttl_days) is None,
        },
{
    if ttl_days > 0 {
        let span = (ttl_days as i64) * SECONDS_PER_DAY;
        Some(now + span)
    } else {
        None
    }
}

/// How long a device stays trusted for two-factor sign-in: 90 days.
pub const S2FA_TTL_SECONDS: i64 = 7776000;

/// A fresh "remember this device" token: the hex of 20 random bytes. Only
/// its hash is stored.
pub fn generate_s2fa_token() -> (t: String)
    ensures
        exists|b: Seq<u8>| b.len() == 20 && t@ == hex_encode_spec(b),
        t@.len() == 40,
{
    let bytes = random_bytes(20);
    proof {
        lemma_hex_encode_shape(bytes@);
    }
    hex_encode(bytes.as_slice())
}

} // verus!
