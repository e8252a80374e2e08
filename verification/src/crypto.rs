//! The cryptographic and encoding primitives the services build on.
//!
//! Each primitive comes from an outside crate and is reached through one
//! trusted wrapper. Where the crate's documentation pins the result down in a
//! few lines (hex, constant-time comparison) the wrapper's contract says so;
//! where it would take pages (a hash, a KDF, base64) the result is given a
//! name, and the contract ties the name to every argument.

use vstd::prelude::*;
use vstd::utf8::encode_utf8;
use crate::text::{digit_char, digit_value, is_digit, is_hex_digit};

use hmac::Mac;
use sha2::Digest;
use subtle::ConstantTimeEq;
use rand::Rng;
use base64::Engine;
use aes::cipher::{BlockModeDecrypt, BlockModeEncrypt, KeyIvInit};

verus! {

// ─── Hex ──────────────────────────────────────────────────────────────────

/// The lowercase hex digit of a nibble.
pub open spec fn hex_lower(d: nat) -> char
    recommends
        d < 16,
{
    if d < 10 {
        digit_char(d)
    } else {
        (('a' as u32) + (d - 10)) as char
    }
}

/// The value of a hex digit of either case.
pub open spec fn hex_digit_value(c: char) -> nat {
    if is_digit(c) {
        digit_value(c)
    } else if 'a' <= c && c <= 'f' {
        (c as u32 - 'a' as u32 + 10) as nat
    } else {
        (c as u32 - 'A' as u32 + 10) as nat
    }
}

/// Lowercase hex of a byte string: two characters per byte, high nibble first.
pub open spec fn hex_encode_spec(b: Seq<u8>) -> Seq<char> {
    Seq::new(
        2 * b.len(),
        |i: int|
            if i % 2 == 0 {
                hex_lower((b[i / 2] / 16) as nat)
            } else {
                hex_lower((b[i / 2] % 16) as nat)
            },
    )
}

/// Whether every character of `s` is a hex digit.
pub open spec fn all_hex(s: Seq<char>) -> bool {
    forall|i: int| 0 <= i < s.len() ==> is_hex_digit(#[trigger] s[i])
}

/// What `hex::decode` accepts and yields: an even number of hex digits of
/// either case, two per byte.
pub open spec fn hex_decode_spec(s: Seq<char>) -> Option<Seq<u8>> {
    if s.len() % 2 == 0 && all_hex(s) {
        Some(
            Seq::new(
                s.len() / 2,
                |i: int| (hex_digit_value(s[2 * i]) * 16 + hex_digit_value(s[2 * i + 1])) as u8,
            ),
        )
    } else {
        None
    }
}

/// `hex::encode`: lowercase hex of the bytes.
#[verifier::external_body]
pub(crate) fn hex_encode(bytes: &[u8]) -> (out: String)
    ensures
        out@ == hex_encode_spec(bytes@),
{
    hex::encode(bytes)
}

/// `hex::decode`: the bytes of an even-length string of hex digits (either
/// case), or `None` for an odd length or a non-hex character.
#[verifier::external_body]
pub(crate) fn hex_decode(s: &str) -> (out: Option<Vec<u8>>)
    ensures
        match out {
            Some(v) => hex_decode_spec(s@) == Some(v@),
            None => hex_decode_spec(s@) is None,
        },
{
    hex::decode(s).ok()
}

// ─── Constant-time comparison ─────────────────────────────────────────────

/// `subtle`'s `ConstantTimeEq` on byte slices: true exactly when the slices
/// have the same length and the same bytes.
#[verifier::external_body]
pub(crate) fn ct_eq(a: &[u8], b: &[u8]) -> (r: bool)
    ensures
        r == (a@ == b@),
{
    a.ct_eq(b).into()
}

// ─── Hashes and MACs ──────────────────────────────────────────────────────

/// HMAC-SHA256 of `msg` under `key`.
pub uninterp spec fn hmac_sha256(key: Seq<u8>, msg: Seq<u8>) -> Seq<u8>;

/// SHA-256 of `data`.
pub uninterp spec fn sha256(data: Seq<u8>) -> Seq<u8>;

/// PBKDF2-HMAC-SHA256 of `password` and `salt`, 32 bytes of output.
pub uninterp spec fn pbkdf2_sha256(password: Seq<u8>, salt: Seq<u8>, rounds: u32) -> Seq<u8>;

/// `hmac::Hmac<Sha256>`: key it with `key` (any length is accepted), feed
/// `msg` and finalize. The tag is the 32-byte SHA-256 output size.
#[verifier::external_body]
pub(crate) fn hmac_sha256_tag(key: &[u8], msg: &[u8]) -> (tag: Vec<u8>)
    ensures
        tag@ == hmac_sha256(key@, msg@),
        tag@.len() == 32,
{
    let mut mac = <hmac::Hmac<sha2::Sha256> as hmac::Mac>::new_from_slice(key)
        .expect("HMAC accepts keys of any length");
    mac.update(msg);
    mac.finalize().into_bytes().to_vec()
}

/// `sha2::Sha256::digest`: the 32-byte digest of `data`.
#[verifier::external_body]
pub(crate) fn sha256_digest(data: &[u8]) -> (out: Vec<u8>)
    ensures
        out@ == sha256(data@),
        out@.len() == 32,
{
    sha2::Sha256::digest(data).to_vec()
}

/// `pbkdf2::pbkdf2_hmac::<Sha256>` into a 32-byte buffer. The crate runs the
/// given number of rounds (zero included) and does not fail for HMAC.
#[verifier::external_body]
pub(crate) fn pbkdf2_sha256_derive(password: &[u8], salt: &[u8], rounds: u32) -> (out: Vec<u8>)
    ensures
        out@ == pbkdf2_sha256(password@, salt@, rounds),
        out@.len() == 32,
{
    let mut key = [0u8;32];
    pbkdf2::pbkdf2_hmac::<sha2::Sha256>(password, salt, rounds, &mut key);
    key.to_vec()
}

// ─── Randomness ───────────────────────────────────────────────────────────

/// `n` bytes from the thread-local CSPRNG (`rand::rng().fill_bytes`). Only the
/// length is known: the bytes are chance.
#[verifier::external_body]
pub(crate) fn random_bytes(n: usize) -> (out: Vec<u8>)
    ensures
        out@.len() == n,
{
    let mut buf = vec![0u8; n];
    rand::rng().fill_bytes(&mut buf);
    buf
}

// ─── Base64 ───────────────────────────────────────────────────────────────

/// The standard padded base64 encoding of `data`.
pub uninterp spec fn base64_standard(data: Seq<u8>) -> Seq<char>;

/// What standard padded base64 decoding yields for `s`, `None` when `s` is
/// not canonical base64.
pub uninterp spec fn base64_standard_decode(s: Seq<char>) -> Option<Seq<u8>>;

/// The unpadded URL-safe base64 encoding of `data`.
pub uninterp spec fn base64_url_nopad(data: Seq<u8>) -> Seq<char>;

/// `base64::engine::general_purpose::STANDARD.encode`. Decoding what it wrote
/// gives the input back.
#[verifier::external_body]
pub(crate) fn base64_encode(data: &[u8]) -> (out: String)
    ensures
        out@ == base64_standard(data@),
        base64_standard_decode(out@) == Some(data@),
{
    base64::engine::general_purpose::STANDARD.encode(data)
}

/// `base64::engine::general_purpose::STANDARD.decode`, with the error dropped.
#[verifier::external_body]
pub(crate) fn base64_decode(s: &str) -> (out: Option<Vec<u8>>)
    ensures
        match out {
            Some(v) => base64_standard_decode(s@) == Some(v@),
            None => base64_standard_decode(s@) is None,
        },
{
    base64::engine::general_purpose::STANDARD.decode(s).ok()
}

/// `base64::engine::general_purpose::URL_SAFE_NO_PAD.encode`.
#[verifier::external_body]
pub(crate) fn base64_url_encode(data: &[u8]) -> (out: String)
    ensures
        out@ == base64_url_nopad(data@),
{
    base64::engine::general_purpose::URL_SAFE_NO_PAD.encode(data)
}

// ─── AES-256-CBC ──────────────────────────────────────────────────────────

/// AES-256-CBC with PKCS#7 padding of `plain` under `key` and `iv`.
pub uninterp spec fn aes256_cbc_encrypt(key: Seq<u8>, iv: Seq<u8>, plain: Seq<u8>) -> Seq<u8>;

/// AES-256-CBC decryption with PKCS#7 unpadding, `None` when the padding
/// does not check out.
pub uninterp spec fn aes256_cbc_decrypt(key: Seq<u8>, iv: Seq<u8>, data: Seq<u8>) -> Option<Seq<u8>>;

/// `cbc::Encryptor::<aes::Aes256>::new_from_slices` + `encrypt_padded_vec::<Pkcs7>`.
/// A key that is not 32 bytes or an IV that is not 16 is refused (`None`).
/// Decrypting the result under the same key and IV gives the plaintext back.
#[verifier::external_body]
pub(crate) fn aes256_cbc_encrypt_vec(key: &[u8], iv: &[u8], plain: &[u8]) -> (out: Option<Vec<u8>>)
    ensures
        (key@.len() == 32 && iv@.len() == 16) <==> out is Some,
        out matches Some(c) ==> c@ == aes256_cbc_encrypt(key@, iv@, plain@)
            && aes256_cbc_decrypt(key@, iv@, c@) == Some(plain@),
{
    match cbc::Encryptor::<aes::Aes256>::new_from_slices(key, iv) {
        Ok(c) => Some(c.encrypt_padded_vec::<aes::cipher::block_padding::Pkcs7>(plain)),
        Err(_) => None,
    }
}

/// `cbc::Decryptor::<aes::Aes256>::new_from_slices` + `decrypt_padded_vec::<Pkcs7>`.
/// A key or IV of the wrong length is `InvalidLength`; a ciphertext whose
/// padding does not check out is `BadPadding`.
#[verifier::external_body]
pub(crate) fn aes256_cbc_decrypt_vec(key: &[u8], iv: &[u8], data: &[u8]) -> (out: Result<Vec<u8>, CipherError>)
    ensures
        (key@.len() == 32 && iv@.len() == 16) <==> !(out matches Err(CipherError::InvalidLength)),
        out matches Ok(p) ==> aes256_cbc_decrypt(key@, iv@, data@) == Some(p@),
        out matches Err(CipherError::BadPadding) ==> aes256_cbc_decrypt(key@, iv@, data@) is None,
{
    match cbc::Decryptor::<aes::Aes256>::new_from_slices(key, iv) {
        Ok(c) => c.decrypt_padded_vec::<aes::cipher::block_padding::Pkcs7>(data).map_err(|_| CipherError::BadPadding),
        Err(_) => Err(CipherError::InvalidLength),
    }
}

/// Why an AES-CBC operation was refused.
#[derive(Clone, Copy, Debug, PartialEq, Eq)]
pub enum CipherError {
    InvalidLength,
    BadPadding,
}

// ─── Derived helpers ──────────────────────────────────────────────────────

/// The UTF-8 bytes of a string slice.
pub fn utf8_bytes(s: &str) -> (b: &[u8])
    ensures
        b@ == encode_utf8(s@),
{
    s.as_bytes()
}

} // verus!

verus! {

proof fn lemma_hex_digit_round_trip(d: nat)
    requires
        d < 16,
    ensures
        is_hex_digit(hex_lower(d)),
        hex_digit_value(hex_lower(d)) == d,
        hex_lower(d) != '$' && hex_lower(d) != ':',
{
}

/// Everything `hex_encode_spec` writes is a hex digit, two per byte.
pub proof fn lemma_hex_encode_shape(b: Seq<u8>)
    ensures
        hex_encode_spec(b).len() == 2 * b.len(),
        all_hex(hex_encode_spec(b)),
        forall|i: int| 0 <= i < hex_encode_spec(b).len() ==> #[trigger] hex_encode_spec(b)[i] != '$'
            && hex_encode_spec(b)[i] != ':',
{
    let e = hex_encode_spec(b);
    assert forall|i: int| 0 <= i < e.len() implies is_hex_digit(#[trigger] e[i]) && e[i] != '$'
        && e[i] != ':' by {
        if i % 2 == 0 {
            lemma_hex_digit_round_trip((b[i / 2] / 16) as nat);
        } else {
            lemma_hex_digit_round_trip((b[i / 2] % 16) as nat);
        }
    }
}

/// `hex::decode` reads back what `hex::encode` wrote.
pub proof fn lemma_hex_round_trip(b: Seq<u8>)
    ensures
        hex_decode_spec(hex_encode_spec(b)) == Some(b),
{
    lemma_hex_encode_shape(b);
    let e = hex_encode_spec(b);
    assert(e.len() % 2 == 0);
    let d = Seq::new(
        e.len() / 2,
        |i: int| (hex_digit_value(e[2 * i]) * 16 + hex_digit_value(e[2 * i + 1])) as u8,
    );
    assert forall|i: int| 0 <= i < b.len() implies d[i] == b[i] by {
        lemma_hex_digit_round_trip((b[i] / 16) as nat);
        lemma_hex_digit_round_trip((b[i] % 16) as nat);
        assert((2 * i) / 2 == i);
        assert((2 * i + 1) / 2 == i);
        assert((2 * i) % 2 == 0);
        assert((2 * i + 1) % 2 == 1);
    }
    assert(d =~= b);
}

} // verus!
