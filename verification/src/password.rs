//! Account password hashing: PBKDF2-HMAC-SHA256 with the cost stored in the
//! hash, plus the strength rules a new password must meet.
//!
//! Current format: `pbkdf2_sha256$<iterations>$<hex salt>$<hex hash>`.
//! Legacy format: `hex(salt):hex(hash)`, whose cost is not recorded; every such
//! hash was written with the then-current global setting, which the caller
//! supplies.

use vstd::prelude::*;
use vstd::string::StrSliceExecFns;
use vstd::utf8::encode_utf8;
use crate::crypto::{ct_eq, hex_decode, hex_decode_spec, hex_encode, hex_encode_spec, pbkdf2_sha256, pbkdf2_sha256_derive, random_bytes, utf8_bytes};
use crate::split::{lemma_next_sep_bounds, next_sep, next_sep_exec};
use crate::text::{chars_of, decimal, is_alpha, is_digit, parse_u32, parse_u32_spec, push_decimal, push_str, starts_with, starts_with_exec};

verus! {

/// Length of a freshly generated salt, in bytes.
pub const SALT_LEN: usize = 16;

/// Length of a PBKDF2 output, in bytes.
pub const HASH_LEN: usize = 32;

/// Upper bound accepted when reading an iteration count out of a stored hash,
/// so a corrupted row cannot make verification spin without bound.
pub const MAX_ITERATIONS: u32 = 10_000_000;

/// The algorithm tag and its separator, as the versioned format starts.
pub open spec fn algo_prefix() -> Seq<char> {
    "pbkdf2_sha256$"@
}

/// The versioned hash text for a cost, salt and derived key.
pub open spec fn hash_format(iterations: u32, salt: Seq<u8>, hash: Seq<u8>) -> Seq<char> {
    algo_prefix() + decimal(iterations as nat) + "$"@ + hex_encode_spec(salt) + "$"@
        + hex_encode_spec(hash)
}

/// `n` copies of `'0'`.
pub open spec fn zeros(n: nat) -> Seq<char> {
    Seq::new(n, |i: int| '0')
}

/// A stored hash split into its cost and material. A cost of zero marks a
/// legacy hash, whose cost the caller supplies.
pub struct ParsedHash {
    pub iterations: u32,
    pub salt: Vec<u8>,
    pub hash: Vec<u8>,
}

/// What a stored hash parses to: `(iterations, salt, hash)`, with
/// `iterations == 0` for the legacy format.
pub open spec fn parse_hash_spec(s: Seq<char>) -> Option<(u32, Seq<u8>, Seq<u8>)> {
    if starts_with(s, algo_prefix()) {
        let r = s.skip(algo_prefix().len() as int);
        let j1 = next_sep(r, '$', 0);
        let j2 = next_sep(r, '$', j1 + 1);
        if j1 >= r.len() || j2 >= r.len() {
            None
        } else {
            match parse_u32_spec(r.take(j1)) {
                None => None,
                Some(n) => if n == 0 || n > MAX_ITERATIONS {
                    None
                } else {
                    match (hex_decode_spec(r.subrange(j1 + 1, j2)), hex_decode_spec(r.skip(j2 + 1))) {
                        (Some(salt), Some(hash)) => Some((n, salt, hash)),
                        _ => None,
                    }
                },
            }
        }
    } else {
        let j = next_sep(s, ':', 0);
        if j >= s.len() {
            None
        } else {
            match (hex_decode_spec(s.take(j)), hex_decode_spec(s.skip(j + 1))) {
                (Some(salt), Some(hash)) => Some((0u32, salt, hash)),
                _ => None,
            }
        }
    }
}

/// Whether `password` matches the stored hash. The cost embedded in the hash
/// wins; `fallback_iterations` only applies to legacy hashes.
pub open spec fn verify_spec(password: Seq<char>, stored: Seq<char>, fallback_iterations: u32) -> bool {
    match parse_hash_spec(stored) {
        None => false,
        Some((n, salt, hash)) => pbkdf2_sha256(
            encode_utf8(password),
            salt,
            if n == 0 { fallback_iterations } else { n },
        ) == hash,
    }
}

/// Whether a stored hash should be rewritten with `current`.
pub open spec fn needs_rehash_spec(stored: Seq<char>, current: u32) -> bool {
    match parse_hash_spec(stored) {
        Some((n, _, _)) => n == 0 || n != current,
        None => false,
    }
}

/// A syntactically valid hash that can never match, used to equalize login
/// latency when the user does not exist. The cost is the configured one, so
/// verifying against it takes as long as verifying against a real hash.
pub fn dummy_password_hash(iterations: u32) -> (h: String)
    ensures
        h@ == algo_prefix() + decimal(iterations as nat) + "$"@ + zeros(32) + "$"@ + zeros(64),
{
    let mut h = String::new();
    push_str(&mut h, "pbkdf2_sha256$");
    push_decimal(&mut h, iterations as u64);
    push_str(&mut h, "$");
    let mut i: usize = 0;
    let ghost head = h@;
    while i < SALT_LEN * 2
        invariant
            i <= 32,
            h@ == head + zeros(i as nat),
        decreases 32 - i,
    {
        crate::text::push_char(&mut h, '0');
        i = i + 1;
        proof {
            assert(zeros(i as nat) =~= zeros((i - 1) as nat).push('0'));
        }
    }
    push_str(&mut h, "$");
    let ghost head2 = h@;
    let mut k: usize = 0;
    while k < HASH_LEN * 2
        invariant
            k <= 64,
            h@ == head2 + zeros(k as nat),
        decreases 64 - k,
    {
        crate::text::push_char(&mut h, '0');
        k = k + 1;
        proof {
            assert(zeros(k as nat) =~= zeros((k - 1) as nat).push('0'));
        }
    }
    proof {
        assert(h@ =~= algo_prefix() + decimal(iterations as nat) + "$"@ + zeros(32) + "$"@ + zeros(64));
    }
    h
}

/// Parse a stored hash into cost, salt and derived key.
pub fn parse_hash(password_hash: &str) -> (r: Option<ParsedHash>)
    ensures
        match r {
            Some(p) => parse_hash_spec(password_hash@) == Some((p.iterations, p.salt@, p.hash@)),
            None => parse_hash_spec(password_hash@) is None,
        },
{
    let s = chars_of(password_hash);
    let prefix = chars_of("pbkdf2_sha256$");
    if starts_with_exec(s.as_slice(), prefix.as_slice()) {
        let plen = prefix.len();
        let ghost r = password_hash@.skip(plen as int);
        let j1 = next_sep_exec(s.as_slice(), '$', plen);
        proof {
            lemma_next_sep_bounds(s@, '$', plen as int);
            lemma_next_sep_shift(s@, '$', plen as int, 0);
        }
        if j1 >= s.len() {
            return None;
        }
        let j2 = next_sep_exec(s.as_slice(), '$', j1 + 1);
        proof {
            lemma_next_sep_bounds(s@, '$', j1 + 1);
            lemma_next_sep_shift(s@, '$', plen as int, j1 + 1 - plen);
        }
        if j2 >= s.len() {
            return None;
        }
        let count = crate::text::slice_range(s.as_slice(), plen, j1);
        proof {
            assert(count@ =~= r.take(j1 - plen));
        }
        let iterations = match parse_u32(count.as_slice()) {
            Some(n) => n,
            None => return None,
        };
        if iterations == 0 || iterations > MAX_ITERATIONS {
            return None;
        }
        let salt_text = password_hash.substring_char(j1 + 1, j2);
        let hash_text = password_hash.substring_char(j2 + 1, s.len());
        proof {
            assert(salt_text@ =~= r.subrange(j1 + 1 - plen, j2 - plen));
            assert(hash_text@ =~= r.skip(j2 + 1 - plen));
        }
        let salt = match hex_decode(salt_text) {
            Some(v) => v,
            None => return None,
        };
        let hash = match hex_decode(hash_text) {
            Some(v) => v,
            None => return None,
        };
        Some(ParsedHash { iterations, salt, hash })
    } else {
        let j = next_sep_exec(s.as_slice(), ':', 0);
        proof {
            lemma_next_sep_bounds(s@, ':', 0);
        }
        if j >= s.len() {
            return None;
        }
        let salt_text = password_hash.substring_char(0, j);
        let hash_text = password_hash.substring_char(j + 1, s.len());
        proof {
            assert(salt_text@ =~= s@.take(j as int));
            assert(hash_text@ =~= s@.skip(j + 1));
        }
        let salt = match hex_decode(salt_text) {
            Some(v) => v,
            None => return None,
        };
        let hash = match hex_decode(hash_text) {
            Some(v) => v,
            None => return None,
        };
        Some(ParsedHash { iterations: 0, salt, hash })
    }
}

/// `next_sep` on a suffix is `next_sep` on the whole, shifted.
proof fn lemma_next_sep_shift(s: Seq<char>, c: char, k: int, from: int)
    requires
        0 <= k <= s.len(),
        0 <= from <= s.len() - k,
    ensures
        next_sep(s.skip(k), c, from) == next_sep(s, c, k + from) - k,
    decreases s.len() - k - from,
{
    if from < s.len() - k && s[k + from] != c {
        lemma_next_sep_shift(s, c, k, from + 1);
    }
}

/// Hash a password with a fresh random salt and the given iteration count,
/// in the versioned format. The cost travels with the hash, so raising the
/// configured count later does not invalidate it.
pub fn hash_password(password: &str, iterations: u32) -> (h: String)
    ensures
        exists|salt: Seq<u8>|
            salt.len() == SALT_LEN && h@ == hash_format(
                iterations,
                salt,
                #[trigger] pbkdf2_sha256(encode_utf8(password@), salt, iterations),
            ),
{
    let salt = random_bytes(SALT_LEN);
    let hash = pbkdf2_sha256_derive(utf8_bytes(password), salt.as_slice(), iterations);
    let mut h = String::new();
    push_str(&mut h, "pbkdf2_sha256$");
    push_decimal(&mut h, iterations as u64);
    push_str(&mut h, "$");
    let salt_hex = hex_encode(salt.as_slice());
    push_str(&mut h, salt_hex.as_str());
    push_str(&mut h, "$");
    let hash_hex = hex_encode(hash.as_slice());
    push_str(&mut h, hash_hex.as_str());
    proof {
        assert(h@ =~= hash_format(iterations, salt@, hash@));
    }
    h
}

/// Verify a password against a stored hash, comparing the derived key in
/// constant time. An unparseable hash never matches.
pub fn verify_password(password: &str, password_hash: &str, fallback_iterations: u32) -> (ok: bool)
    ensures
        ok == verify_spec(password@, password_hash@, fallback_iterations),
{
    let parsed = match parse_hash(password_hash) {
        Some(p) => p,
        None => return false,
    };
    let iterations = if parsed.iterations == 0 {
        fallback_iterations
    } else {
        parsed.iterations
    };
    let computed = pbkdf2_sha256_derive(utf8_bytes(password), parsed.salt.as_slice(), iterations);
    ct_eq(computed.as_slice(), parsed.hash.as_slice())
}

/// Whether a stored hash should be rewritten with `current_iterations`: true
/// for legacy hashes and for hashes whose recorded cost differs; an
/// unparseable value is left alone.
pub fn needs_rehash(password_hash: &str, current_iterations: u32) -> (r: bool)
    ensures
        r == needs_rehash_spec(password_hash@, current_iterations),
{
    match parse_hash(password_hash) {
        Some(parsed) => parsed.iterations == 0 || parsed.iterations != current_iterations,
        None => false,
    }
}

/// Why [`validate_password`] refuses a password.
pub open spec fn password_problem(password: Seq<char>, min_length: u32, require_strong: bool) -> Option<Seq<char>> {
    if (password.len() as u32) < min_length {
        Some("Password must be at least "@ + decimal(min_length as nat) + " characters long."@)
    } else if require_strong && !((exists|i: int| 0 <= i < password.len() && is_alpha(password[i]))
        && (exists|i: int| 0 <= i < password.len() && is_digit(password[i]))) {
        Some("Password must contain at least one letter and one digit."@)
    } else {
        None
    }
}

/// Validate password strength: at least `min_length` characters (counted as
/// characters, not bytes), and with `require_strong` at least one ASCII
/// letter and one ASCII digit.
pub fn validate_password(password: &str, min_length: u32, require_strong: bool) -> (r: Result<(), String>)
    ensures
        match r {
            Ok(()) => password_problem(password@, min_length, require_strong) is None,
            Err(m) => password_problem(password@, min_length, require_strong) == Some(m@),
        },
{
    let v = chars_of(password);
    let count = v.len() as u32;
    if count < min_length {
        let mut m = String::new();
        push_str(&mut m, "Password must be at least ");
        push_decimal(&mut m, min_length as u64);
        push_str(&mut m, " characters long.");
        return Err(m);
    }
    if require_strong {
        let mut has_letter = false;
        let mut has_digit = false;
        let mut i: usize = 0;
        while i < v.len()
            invariant
                i <= v@.len(),
                v@ == password@,
                has_letter == (exists|j: int| 0 <= j < i && is_alpha(v@[j])),
                has_digit == (exists|j: int| 0 <= j < i && is_digit(v@[j])),
            decreases v@.len() - i,
        {
            let c = v[i];
            if ('a' <= c && c <= 'z') || ('A' <= c && c <= 'Z') {
                has_letter = true;
            }
            if '0' <= c && c <= '9' {
                has_digit = true;
            }
            i = i + 1;
            proof {
                if has_letter {
                    assert(exists|j: int| 0 <= j < i && is_alpha(v@[j]));
                }
                if has_digit {
                    assert(exists|j: int| 0 <= j < i && is_digit(v@[j]));
                }
            }
        }
        if !has_letter || !has_digit {
            return Err("Password must contain at least one letter and one digit.".to_owned());
        }
    }
    Ok(())
}

} // verus!

verus! {

/// The versioned text parses back to the cost, salt and key it was built
/// from, for every cost the parser accepts.
pub proof fn lemma_parse_hash_format(n: u32, salt: Seq<u8>, hash: Seq<u8>)
    requires
        0 < n <= MAX_ITERATIONS,
    ensures
        parse_hash_spec(hash_format(n, salt, hash)) == Some((n, salt, hash)),
{
    let p = algo_prefix();
    let d = decimal(n as nat);
    let hs = hex_encode_spec(salt);
    let hh = hex_encode_spec(hash);
    let dollar = "$"@;
    reveal_strlit("$");
    assert(dollar == seq!['$']);
    let f = hash_format(n, salt, hash);
    assert(f == p + d + dollar + hs + dollar + hh);
    assert(f.subrange(0, p.len() as int) =~= p);
    let r = f.skip(p.len() as int);
    assert(r =~= d + dollar + hs + dollar + hh);
    crate::text::lemma_decimal_digits(d.len() as nat);
    crate::text::lemma_decimal_digits(n as nat);
    crate::crypto::lemma_hex_encode_shape(salt);
    crate::crypto::lemma_hex_encode_shape(hash);
    let j1 = d.len() as int;
    let j2 = j1 + 1 + hs.len();
    assert forall|i: int| 0 <= i < j1 implies r[i] != '$' by {
        assert(r[i] == d[i]);
        assert(is_digit(d[i]));
    }
    crate::split::lemma_next_sep_at(r, '$', 0, j1);
    assert forall|i: int| j1 + 1 <= i < j2 implies r[i] != '$' by {
        assert(r[i] == hs[i - j1 - 1]);
    }
    crate::split::lemma_next_sep_at(r, '$', j1 + 1, j2);
    assert(r.take(j1) =~= d);
    assert(r.subrange(j1 + 1, j2) =~= hs);
    assert(r.skip(j2 + 1) =~= hh);
    crate::text::lemma_parse_decimal(n);
    crate::crypto::lemma_hex_round_trip(salt);
    crate::crypto::lemma_hex_round_trip(hash);
}

/// A hash written by [`hash_password`] verifies against the same password
/// whatever the configured fallback cost (the embedded cost wins), verifies
/// another password only when PBKDF2 gives that one the same key, and needs
/// rehashing exactly when the configured cost moved.
pub proof fn hash_then_verify(password: Seq<char>, other: Seq<char>, salt: Seq<u8>, n: u32, fallback: u32, current: u32)
    requires
        0 < n <= MAX_ITERATIONS,
    ensures
        verify_spec(other, hash_format(n, salt, pbkdf2_sha256(encode_utf8(password), salt, n)), fallback)
            <==> pbkdf2_sha256(encode_utf8(other), salt, n) == pbkdf2_sha256(encode_utf8(password), salt, n),
        verify_spec(
            password,
            hash_format(n, salt, pbkdf2_sha256(encode_utf8(password), salt, n)),
            fallback,
        ),
        needs_rehash_spec(hash_format(n, salt, pbkdf2_sha256(encode_utf8(password), salt, n)), current)
            <==> current != n,
{
    lemma_parse_hash_format(n, salt, pbkdf2_sha256(encode_utf8(password), salt, n));
}

/// The legacy hash text: hex salt, `:`, hex key.
pub open spec fn legacy_format(salt: Seq<u8>, hash: Seq<u8>) -> Seq<char> {
    hex_encode_spec(salt) + ":"@ + hex_encode_spec(hash)
}

/// The legacy text parses back to its salt and key, with no cost of its
/// own.
pub proof fn lemma_parse_legacy_format(salt: Seq<u8>, hash: Seq<u8>)
    ensures
        parse_hash_spec(legacy_format(salt, hash)) == Some((0u32, salt, hash)),
{
    reveal_strlit(":");
    reveal_strlit("pbkdf2_sha256$");
    let hs = hex_encode_spec(salt);
    let hh = hex_encode_spec(hash);
    let f = legacy_format(salt, hash);
    crate::crypto::lemma_hex_encode_shape(salt);
    crate::crypto::lemma_hex_encode_shape(hash);
    crate::crypto::lemma_hex_round_trip(salt);
    crate::crypto::lemma_hex_round_trip(hash);
    assert(f[0] != 'p') by {
        if hs.len() > 0 {
            assert(f[0] == hs[0]);
        } else {
            assert(f[0] == ':');
        }
    }
    assert(!starts_with(f, algo_prefix())) by {
        if starts_with(f, algo_prefix()) {
            assert(f.subrange(0, algo_prefix().len() as int)[0] == f[0]);
        }
    }
    let j = hs.len() as int;
    assert(f[j] == ':');
    assert forall|i: int| 0 <= i < j implies f[i] != ':' by {
        assert(f[i] == hs[i]);
    }
    crate::split::lemma_next_sep_at(f, ':', 0, j);
    assert(f.take(j) =~= hs);
    assert(f.skip(j + 1) =~= hh);
}

/// A legacy hash (no embedded cost) verifies with the configured cost it
/// was made with; under another cost, or for another password, it verifies
/// only when PBKDF2 gives the same key.
pub proof fn legacy_hashes_use_the_configured_cost(password: Seq<char>, other: Seq<char>, salt: Seq<u8>, n: u32, m: u32)
    ensures
        ({
            let key = pbkdf2_sha256(encode_utf8(password), salt, n);
            let legacy = legacy_format(salt, key);
            &&& verify_spec(password, legacy, n)
            &&& (verify_spec(password, legacy, m) <==> pbkdf2_sha256(encode_utf8(password), salt, m) == key)
            &&& (verify_spec(other, legacy, n) <==> pbkdf2_sha256(encode_utf8(other), salt, n) == key)
        }),
{
    lemma_parse_legacy_format(salt, pbkdf2_sha256(encode_utf8(password), salt, n));
}

/// The login-latency dummy is never a legacy hash: it carries the configured
/// cost, so it needs no rehash at that cost.
pub proof fn dummy_hash_carries_cost(n: u32, current: u32)
    requires
        0 < n <= MAX_ITERATIONS,
    ensures
        parse_hash_spec(algo_prefix() + decimal(n as nat) + "$"@ + zeros(32) + "$"@ + zeros(64)) matches Some((c, salt, hash)) && c == n && salt.len() == 16 && hash.len() == 32,
        needs_rehash_spec(algo_prefix() + decimal(n as nat) + "$"@ + zeros(32) + "$"@ + zeros(64), current) <==> current != n,
{
    let salt = Seq::new(16, |i: int| 0u8);
    let hash = Seq::new(32, |i: int| 0u8);
    reveal_strlit("0");
    assert(hex_encode_spec(salt) =~= zeros(32));
    assert(hex_encode_spec(hash) =~= zeros(64));
    lemma_parse_hash_format(n, salt, hash);
}

} // verus!
