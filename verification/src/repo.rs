//! The encryption rules of libraries: what a create request may carry, how
//! a password verifier triple is cleaned and checked, what every read path
//! shows of a library's encryption block, and how changing a library's
//! password re-wraps its file key.

use vstd::prelude::*;
use vstd::utf8::encode_utf8;
use crate::crypto::{
    CipherError, aes256_cbc_decrypt, aes256_cbc_decrypt_vec, aes256_cbc_encrypt,
    aes256_cbc_encrypt_vec, all_hex, hex_decode, hex_decode_spec, hex_encode, hex_encode_spec,
    utf8_bytes,
};
use crate::error::{AppError, bad_request, is_bad_request};
use crate::text::{
    chars_of, is_hex_digit, opt_text, owned, push_str, str_eq, string_of, trim, trimmed_chars,
};

verus! {

/// The password-verifier triple of a library (`pwd_hash`, its algorithm and
/// the algorithm's parameters).
#[derive(Debug, Clone, Default)]
pub struct PwdHash {
    pub hash: Option<String>,
    pub algo: Option<String>,
    pub params: Option<String>,
}

/// A field with its blanks treated as absent: the text trimmed, `None` when
/// nothing is left.
pub open spec fn cleaned(v: Option<String>) -> Option<Seq<char>> {
    match v {
        Some(s) => if trim(s@).len() > 0 { Some(trim(s@)) } else { None },
        None => None,
    }
}

/// The text of an optional field.
pub open spec fn field(v: Option<String>) -> Option<Seq<char>> {
    match v {
        Some(s) => Some(s@),
        None => None,
    }
}

/// Whether `s` is `n` hex digits.
pub open spec fn is_hex_of_len(s: Seq<char>, n: nat) -> bool {
    s.len() == n && all_hex(s)
}

/// Whether an algorithm is one a verifier may use.
pub open spec fn supported_algo(a: Seq<char>) -> bool {
    a == "pbkdf2_sha256"@ || a == "argon2id"@
}

fn clean(v: Option<String>) -> (r: Option<String>)
    ensures
        field(r) == cleaned(v),
{
    match v {
        Some(s) => {
            let t = trimmed_chars(s.as_str());
            if t.len() > 0 {
                Some(string_of(t.as_slice()))
            } else {
                None
            }
        },
        None => None,
    }
}

/// Whether every character of `s` is a hex digit and there are `n` of them.
pub fn hex_of_len(s: &str, n: usize) -> (b: bool)
    ensures
        b == is_hex_of_len(s@, n as nat),
{
    let v = chars_of(s);
    if v.len() != n {
        return false;
    }
    let mut i: usize = 0;
    while i < v.len()
        invariant
            i <= v@.len(),
            v@ == s@,
            v@.len() == n,
            forall|j: int| 0 <= j < i ==> is_hex_digit(#[trigger] v@[j]),
        decreases v@.len() - i,
    {
        let c = v[i];
        if !(('0' <= c && c <= '9') || ('a' <= c && c <= 'f') || ('A' <= c && c <= 'F')) {
            proof {
                assert(!is_hex_digit(v@[i as int]));
            }
            return false;
        }
        i = i + 1;
    }
    true
}

impl PwdHash {
    /// Build one from the three wire fields.
    pub fn from_request(hash: Option<String>, algo: Option<String>, params: Option<String>) -> (p: PwdHash)
        ensures
            p.hash == hash,
            p.algo == algo,
            p.params == params,
    {
        PwdHash { hash, algo, params }
    }

    /// Treat blank fields as absent, and drop the whole triple when it has no
    /// algorithm: nothing is read from a triple unless its algorithm is set,
    /// so a lone `pwd_hash` is ignored rather than stored as an unusable
    /// verifier.
    pub fn normalized(self) -> (p: PwdHash)
        ensures
            field(p.algo) == cleaned(self.algo),
            field(p.hash) == (if cleaned(self.algo) is Some { cleaned(self.hash) } else { None }),
            field(p.params) == (if cleaned(self.algo) is Some { cleaned(self.params) } else { None }),
    {
        let hash = clean(self.hash);
        let algo = clean(self.algo);
        let params = clean(self.params);
        if algo.is_none() {
            PwdHash { hash: None, algo, params: None }
        } else {
            PwdHash { hash, algo, params }
        }
    }

    /// Whether the request carries a usable verifier triple: one with an
    /// algorithm.
    pub fn is_present(&self) -> (b: bool)
        ensures
            b == self.algo is Some,
    {
        self.algo.is_some()
    }

    /// The three `repos` columns.
    pub fn to_columns(&self) -> (c: (Option<String>, Option<String>, Option<String>))
        ensures
            c == (self.hash, self.algo, self.params),
    {
        (
            crate::text::copy_opt_string(&self.hash),
            crate::text::copy_opt_string(&self.algo),
            crate::text::copy_opt_string(&self.params),
        )
    }

    /// The checks a verifier triple must pass before it is stored: an
    /// algorithm, one of `pbkdf2_sha256` / `argon2id`, a hash of exactly 64
    /// hex characters (anything else could never equal the derived key and
    /// would leave the library unopenable), and parameters the key-derivation
    /// module accepts for that algorithm. `params_check` is that module's
    /// verdict on `(algo, params)`: its message becomes the error.
    pub fn validate(&self, params_check: Result<(), String>) -> (r: Result<(), AppError>)
        ensures
            match self.algo {
                None => r matches Err(e) && is_bad_request(e, "pwd_hash_algo required with pwd_hash"@),
                Some(a) => if !supported_algo(a@) {
                    r matches Err(e) && is_bad_request(e, "unsupported pwd_hash algorithm '"@ + a@ + "'; use 'pbkdf2_sha256' or 'argon2id'"@)
                } else if !(self.hash matches Some(h) && is_hex_of_len(h@, 64)) {
                    r matches Err(e) && is_bad_request(e, "pwd_hash must be 64 hex characters"@)
                } else {
                    match params_check {
                        Ok(()) => r is Ok,
                        Err(m) => r == Err::<(), AppError>(AppError::BadRequest(m)),
                    }
                },
            },
    {
        let algo = match &self.algo {
            Some(a) => a,
            None => return Err(bad_request("pwd_hash_algo required with pwd_hash")),
        };
        if !(str_eq(algo.as_str(), "pbkdf2_sha256") || str_eq(algo.as_str(), "argon2id")) {
            let mut m = owned("unsupported pwd_hash algorithm '");
            push_str(&mut m, algo.as_str());
            push_str(&mut m, "'; use 'pbkdf2_sha256' or 'argon2id'");
            return Err(AppError::BadRequest(m));
        }
        match &self.hash {
            Some(h) => {
                if !hex_of_len(h.as_str(), 64) {
                    return Err(bad_request("pwd_hash must be 64 hex characters"));
                }
            },
            None => return Err(bad_request("pwd_hash must be 64 hex characters")),
        }
        match params_check {
            Ok(()) => Ok(()),
            Err(m) => Err(AppError::BadRequest(m)),
        }
    }
}

/// The server-side encrypted-library policy: the version and verifier the
/// server uses when it has to generate a library's keys itself.
#[derive(Debug, Clone)]
pub struct EncryptedLibraryPolicy {
    pub enc_version: i32,
    /// `None` keeps the legacy `magic` flow.
    pub pwd_hash_algo: Option<String>,
    pub pwd_hash_params: Option<String>,
}

impl EncryptedLibraryPolicy {
    /// The policy from the configured values, treating blank strings as
    /// unset.
    pub fn from_config(enc_version: i32, pwd_hash_algo: Option<String>, pwd_hash_params: Option<String>) -> (p: EncryptedLibraryPolicy)
        ensures
            p.enc_version == enc_version,
            field(p.pwd_hash_algo) == cleaned(pwd_hash_algo),
            field(p.pwd_hash_params) == cleaned(pwd_hash_params),
    {
        EncryptedLibraryPolicy {
            enc_version,
            pwd_hash_algo: clean(pwd_hash_algo),
            pwd_hash_params: clean(pwd_hash_params),
        }
    }
}

/// A stored library row, as far as its encryption is concerned.
#[derive(Debug, Clone)]
pub struct RepoRow {
    pub encrypted: i8,
    pub enc_version: i8,
    pub magic: Option<String>,
    pub random_key: Option<String>,
    pub salt: String,
    pub pwd_hash: Option<String>,
    pub pwd_hash_algo: Option<String>,
    pub pwd_hash_params: Option<String>,
}

/// The encryption block of a library, as every read path shows it.
#[derive(Debug, Clone, Default)]
pub struct RepoCrypto {
    pub encrypted: bool,
    pub enc_version: Option<i32>,
    pub magic: Option<String>,
    pub key: Option<String>,
    pub salt: Option<String>,
    pub pwd_hash: Option<String>,
    pub pwd_hash_algo: Option<String>,
    pub pwd_hash_params: Option<String>,
}

impl RepoCrypto {
    /// The encryption block of a stored library: nothing for a plain one;
    /// for an encrypted one its version and keys, the salt only from version
    /// 3 on and when set, and no `magic` next to a `pwd_hash` (a client that
    /// saw both would check the password against a value never stored).
    pub fn from_model(r: &RepoRow) -> (c: RepoCrypto)
        ensures
            r.encrypted == 0 ==> (!c.encrypted && c.enc_version is None && c.magic is None && c.key is None
                && c.salt is None && c.pwd_hash is None && c.pwd_hash_algo is None && c.pwd_hash_params is None),
            r.encrypted != 0 ==> {
                &&& c.encrypted
                &&& c.enc_version == Some(r.enc_version as i32)
                &&& c.magic == (if r.pwd_hash is Some { None } else { r.magic })
                &&& c.key == r.random_key
                &&& field(c.salt) == (if r.enc_version >= 3 && r.salt@.len() > 0 { Some(r.salt@) } else { None })
                &&& c.pwd_hash == r.pwd_hash
                &&& c.pwd_hash_algo == r.pwd_hash_algo
                &&& c.pwd_hash_params == r.pwd_hash_params
            },
    {
        if r.encrypted == 0 {
            return RepoCrypto {
                encrypted: false,
                enc_version: None,
                magic: None,
                key: None,
                salt: None,
                pwd_hash: None,
                pwd_hash_algo: None,
                pwd_hash_params: None,
            };
        }
        let pwd_hash = crate::text::copy_opt_string(&r.pwd_hash);
        RepoCrypto {
            encrypted: true,
            enc_version: Some(r.enc_version as i32),
            magic: if pwd_hash.is_some() {
                None
            } else {
                crate::text::copy_opt_string(&r.magic)
            },
            key: crate::text::copy_opt_string(&r.random_key),
            salt: if r.enc_version >= 3 && !r.salt.as_str().is_empty() {
                Some(r.salt.clone())
            } else {
                None
            },
            pwd_hash,
            pwd_hash_algo: crate::text::copy_opt_string(&r.pwd_hash_algo),
            pwd_hash_params: crate::text::copy_opt_string(&r.pwd_hash_params),
        }
    }
}

} // verus!

verus! {

/// Whether a request carries encryption material of its own: a non-blank
/// `magic` or `random_key`, or a verifier triple.
pub open spec fn has_material(magic: Option<String>, random_key: Option<String>, pwd_hash: PwdHash) -> bool {
    (magic matches Some(m) && trim(m@).len() > 0) || (random_key matches Some(k) && trim(k@).len() > 0)
        || pwd_hash.algo is Some
}

fn non_blank(v: &Option<String>) -> (b: bool)
    ensures
        b == (*v matches Some(s) && trim(s@).len() > 0),
{
    match v {
        Some(s) => trimmed_chars(s.as_str()).len() > 0,
        None => false,
    }
}

/// Whether the server has to generate the library's keys: the client sent a
/// non-empty password and no material of its own (what the Android client
/// and the web UI do). Ignoring the password would silently create a plain
/// library.
pub fn server_generates_keys(
    magic: &Option<String>,
    random_key: &Option<String>,
    pwd_hash: &PwdHash,
    passwd: Option<&str>,
) -> (b: bool)
    ensures
        b == (passwd matches Some(p) && p@.len() > 0 && !has_material(*magic, *random_key, *pwd_hash)),
{
    let supplied = non_blank(magic) || non_blank(random_key) || pwd_hash.is_present();
    match passwd {
        Some(p) => !p.is_empty() && !supplied,
        None => false,
    }
}

/// The version the server generates keys for: the policy's, which has to
/// be 2 or 4.
pub fn server_enc_version(policy: &EncryptedLibraryPolicy) -> (r: Result<i32, AppError>)
    ensures
        (policy.enc_version == 2 || policy.enc_version == 4) ==> r == Ok::<i32, AppError>(policy.enc_version),
        !(policy.enc_version == 2 || policy.enc_version == 4) ==> (r matches Err(e) && is_bad_request(
            e,
            "server.encrypted_library_version must be 2 or 4 to create a library from a bare password"@,
        )),
{
    if policy.enc_version == 2 || policy.enc_version == 4 {
        Ok(policy.enc_version)
    } else {
        Err(bad_request("server.encrypted_library_version must be 2 or 4 to create a library from a bare password"))
    }
}

/// Before the server derives a verifier with the configured algorithm, the
/// key-derivation module must accept the configured parameters:
/// `params_check` is its verdict, and its message becomes the error. With
/// no algorithm configured the legacy `magic` flow needs no check.
pub fn check_server_verifier(policy: &EncryptedLibraryPolicy, params_check: Result<(), String>) -> (r: Result<(), AppError>)
    ensures
        policy.pwd_hash_algo is None ==> r is Ok,
        policy.pwd_hash_algo is Some ==> r == match params_check {
            Ok(()) => Ok::<(), AppError>(()),
            Err(m) => Err(AppError::BadRequest(m)),
        },
{
    match &policy.pwd_hash_algo {
        None => Ok(()),
        Some(_) => match params_check {
            Ok(()) => Ok(()),
            Err(m) => Err(AppError::BadRequest(m)),
        },
    }
}

/// The encryption columns a new library is stored with.
#[derive(Debug, Clone)]
pub struct EncryptionColumns {
    pub encrypted: i8,
    pub enc_version: i8,
    pub magic: Option<String>,
    pub random_key: Option<String>,
    pub salt: String,
    pub pwd_hash: Option<String>,
    pub pwd_hash_algo: Option<String>,
    pub pwd_hash_params: Option<String>,
}

/// Whether a library with this request is encrypted: the flag, any
/// material, or a version of 2 or more says so.
pub open spec fn will_encrypt(encrypted: i32, enc_version: i32, magic: Option<String>, random_key: Option<String>, pwd_hash: PwdHash) -> bool {
    encrypted != 0 || has_material(magic, random_key, pwd_hash) || enc_version >= 2
}

/// Why [`settle_encryption`] refuses a request, if it does.
pub open spec fn encryption_problem(
    encrypted: i32,
    enc_version: i32,
    magic: Option<String>,
    random_key: Option<String>,
    salt: Option<String>,
    pwd_hash: PwdHash,
    params_check: Result<(), String>,
) -> Option<Seq<char>> {
    if !will_encrypt(encrypted, enc_version, magic, random_key, pwd_hash) {
        None
    } else if !(enc_version == 2 || enc_version == 4) {
        Some("unsupported enc_version (only 2 and 4 are supported)"@)
    } else if pwd_hash.algo is Some && !(supported_algo(field(pwd_hash.algo)->0)) {
        Some("unsupported pwd_hash algorithm '"@ + field(pwd_hash.algo)->0 + "'; use 'pbkdf2_sha256' or 'argon2id'"@)
    } else if pwd_hash.algo is Some && !(pwd_hash.hash matches Some(h) && is_hex_of_len(h@, 64)) {
        Some("pwd_hash must be 64 hex characters"@)
    } else if pwd_hash.algo is Some && params_check is Err {
        Some(params_check->Err_0@)
    } else if pwd_hash.algo is None && !(magic matches Some(m) && is_hex_of_len(m@, 64)) {
        Some("magic must be 64 hex chars"@)
    } else if !(random_key matches Some(k) && is_hex_of_len(k@, 96)) {
        Some("random_key must be 96 hex chars"@)
    } else if enc_version == 4 && !(salt matches Some(s) && trim(s@).len() > 0) {
        Some("salt is required for enc_version 4"@)
    } else {
        None
    }
}

/// Settle the encryption of a new library from what the request (or the
/// server, for a bare password) supplied. An encrypted library must be of
/// version 2 or 4, carry a valid verifier (a checked `pwd_hash` triple, in
/// which case any `magic` is dropped, or else a 64-hex `magic`), a 96-hex
/// `random_key`, and for version 4 its salt; only version 4 stores a salt.
/// `params_check` is the key-derivation module's verdict on the triple's
/// algorithm and parameters.
pub fn settle_encryption(
    encrypted: i32,
    enc_version: i32,
    magic: Option<String>,
    random_key: Option<String>,
    salt: Option<String>,
    pwd_hash: PwdHash,
    params_check: Result<(), String>,
) -> (r: Result<EncryptionColumns, AppError>)
    ensures
        match encryption_problem(encrypted, enc_version, magic, random_key, salt, pwd_hash, params_check) {
            Some(m) => r matches Err(e) && is_bad_request(e, m),
            None => r matches Ok(c) && {
                &&& c.encrypted == (if will_encrypt(encrypted, enc_version, magic, random_key, pwd_hash) { 1i8 } else { 0i8 })
                &&& c.enc_version == enc_version as i8
                &&& c.magic == (if will_encrypt(encrypted, enc_version, magic, random_key, pwd_hash) && pwd_hash.algo is Some { None } else { magic })
                &&& c.random_key == random_key
                &&& c.salt@ == (if enc_version == 4 { opt_text(salt) } else { Seq::empty() })
                &&& c.pwd_hash == pwd_hash.hash
                &&& c.pwd_hash_algo == pwd_hash.algo
                &&& c.pwd_hash_params == pwd_hash.params
            },
        },
{
    let material = non_blank(&magic) || non_blank(&random_key) || pwd_hash.is_present();
    let enc = encrypted != 0 || material || enc_version >= 2;
    let mut magic = magic;
    if enc {
        if !(enc_version == 2 || enc_version == 4) {
            return Err(bad_request("unsupported enc_version (only 2 and 4 are supported)"));
        }
        if pwd_hash.is_present() {
            match pwd_hash.validate(params_check) {
                Ok(()) => {},
                Err(e) => return Err(e),
            }
            magic = None;
        } else {
            let ok = match &magic {
                Some(m) => hex_of_len(m.as_str(), 64),
                None => false,
            };
            if !ok {
                return Err(bad_request("magic must be 64 hex chars"));
            }
        }
        let key_ok = match &random_key {
            Some(k) => hex_of_len(k.as_str(), 96),
            None => false,
        };
        if !key_ok {
            return Err(bad_request("random_key must be 96 hex chars"));
        }
        if enc_version == 4 && !non_blank(&salt) {
            return Err(bad_request("salt is required for enc_version 4"));
        }
    }
    let (h, a, p) = pwd_hash.to_columns();
    let salt_col = if enc_version == 4 {
        crate::text::opt_string_or_empty(&salt)
    } else {
        String::new()
    };
    Ok(EncryptionColumns {
        encrypted: if enc { 1 } else { 0 },
        enc_version: enc_version as i8,
        magic,
        random_key,
        salt: salt_col,
        pwd_hash: h,
        pwd_hash_algo: a,
        pwd_hash_params: p,
    })
}

/// The canonical hyphenated form of a UUID `uuid::Uuid::parse_str` accepts,
/// `None` for text it refuses.
pub uninterp spec fn uuid_canonical(s: Seq<char>) -> Option<Seq<char>>;

#[verifier::external_body]
fn parse_uuid(s: &str) -> (r: Option<String>)
    ensures
        match r {
            Some(u) => uuid_canonical(s@) == Some(u@),
            None => uuid_canonical(s@) is None,
        },
{
    uuid::Uuid::parse_str(s).ok().map(|u| u.to_string())
}

/// A fresh random UUID (`uuid::Uuid::new_v4`), in the hyphenated form
/// `to_string` writes, which is the canonical form `parse_str` reads back.
#[verifier::external_body]
fn fresh_uuid() -> (s: String)
    ensures
        uuid_canonical(s@) == Some(s@),
{
    uuid::Uuid::new_v4().to_string()
}

/// The id of a new library: the one the client proposed, when it is a
/// well-formed UUID (in canonical form), or a fresh one. Anything else is
/// refused rather than silently replaced: the id ends up in paths on disk.
pub fn resolve_repo_id(client_id: Option<String>) -> (r: Result<String, AppError>)
    ensures
        client_id matches Some(c) ==> match uuid_canonical(trim(c@)) {
            Some(u) => r matches Ok(id) && id@ == u,
            None => r matches Err(e) && is_bad_request(e, "repo_id must be a valid UUID"@),
        },
        client_id is None ==> (r is Ok && uuid_canonical(r->Ok_0@) == Some(r->Ok_0@)),
{
    match client_id {
        Some(c) => {
            let t = string_of(trimmed_chars(c.as_str()).as_slice());
            match parse_uuid(t.as_str()) {
                Some(u) => Ok(u),
                None => Err(bad_request("repo_id must be a valid UUID")),
            }
        },
        None => Ok(fresh_uuid()),
    }
}

/// Whether a character is a control code (Unicode general category `Cc`:
/// U+0000 to U+001F and U+007F to U+009F).
pub open spec fn is_control_char(c: char) -> bool {
    (c as u32) <= 0x1f || (0x7f <= (c as u32) && (c as u32) <= 0x9f)
}

/// Whether a character may stand in a library's name: no path separator, no
/// character that could break out of an inline script, no control code.
pub open spec fn repo_name_char_ok(c: char) -> bool {
    c != '/' && c != '<' && c != '>' && c != '&' && c != '"' && !is_control_char(c)
}

/// A library's name: trimmed, non-empty, at most 255 bytes in UTF-8, and
/// made of characters `repo_name_char_ok` accepts.
pub open spec fn repo_name_ok(name: Seq<char>) -> bool {
    let t = trim(name);
    &&& t.len() > 0
    &&& encode_utf8(t).len() <= 255
    &&& forall|k: int| 0 <= k < t.len() ==> repo_name_char_ok(#[trigger] t[k])
}

/// Check a library's name before it is stored, giving it back trimmed.
/// Names are rendered into inline scripts, so `<`, `>`, `&` and `"` are
/// refused outright, with control codes, `/` and names over 255 bytes.
pub fn validate_repo_name(name: &str) -> (r: Result<String, AppError>)
    ensures
        match r {
            Ok(t) => repo_name_ok(name@) && t@ == trim(name@),
            Err(e) => !repo_name_ok(name@) && is_bad_request(e, "invalid repo name"@),
        },
{
    let t = trimmed_chars(name);
    let ts = string_of(t.as_slice());
    let bytes = utf8_bytes(ts.as_str()).len();
    let mut ok = true;
    let mut i: usize = 0;
    while i < t.len()
        invariant
            i <= t@.len(),
            ok == forall|k: int| 0 <= k < i ==> repo_name_char_ok(#[trigger] t@[k]),
        decreases t@.len() - i,
    {
        let c = t[i];
        let code = c as u32;
        let good = c != '/' && c != '<' && c != '>' && c != '&' && c != '"' && !(code <= 0x1f || (
        0x7f <= code && code <= 0x9f));
        proof {
            assert(good == repo_name_char_ok(t@[i as int]));
        }
        ok = ok && good;
        i = i + 1;
    }
    if t.len() == 0 || bytes > 255 || !ok {
        return Err(bad_request("invalid repo name"));
    }
    Ok(ts)
}

/// `s` with every trailing `c` removed.
pub open spec fn strip_trailing(s: Seq<char>, c: char) -> Seq<char>
    decreases s.len(),
{
    if s.len() > 0 && s.last() == c {
        strip_trailing(s.drop_last(), c)
    } else {
        s
    }
}

/// The URL of a file operation: `<site>/<op>/<token>`, the site URL without
/// its trailing slashes.
pub fn build_op_url(site_url: &str, op: &str, token: &str) -> (u: String)
    ensures
        u@ == strip_trailing(site_url@, '/') + "/"@ + op@ + "/"@ + token@,
{
    let v = chars_of(site_url);
    let mut end = v.len();
    proof {
        assert(v@.take(v@.len() as int) =~= v@);
    }
    while end > 0 && v[end - 1] == '/'
        invariant
            end <= v@.len(),
            strip_trailing(v@, '/') == strip_trailing(v@.take(end as int), '/'),
        decreases end,
    {
        proof {
            assert(v@.take(end as int).drop_last() =~= v@.take(end - 1));
        }
        end = end - 1;
    }
    proof {
        assert(v@.take(v@.len() as int) =~= v@);
    }
    let mut u = string_of(crate::text::slice_range(v.as_slice(), 0, end).as_slice());
    proof {
        assert(strip_trailing(v@.take(end as int), '/') == v@.take(end as int));
        assert(v@.subrange(0, end as int) =~= v@.take(end as int));
    }
    push_str(&mut u, "/");
    push_str(&mut u, op);
    push_str(&mut u, "/");
    push_str(&mut u, token);
    u
}

} // verus!

verus! {

/// What unlocking an encrypted library needs from its row.
#[derive(Debug, Clone)]
pub struct KeyMaterial {
    pub enc_version: i32,
    pub random_key: String,
    /// The per-library salt from version 3 on; empty before.
    pub salt: String,
}

/// The key material of a stored library, refusing a plain library and one
/// without a wrapped file key.
pub fn key_material(r: &RepoRow) -> (m: Result<KeyMaterial, AppError>)
    ensures
        r.encrypted == 0 ==> (m matches Err(e) && is_bad_request(e, "repo is not encrypted"@)),
        r.encrypted != 0 && r.random_key is None ==> (m matches Err(e) && is_bad_request(e, "repo has no random_key"@)),
        r.encrypted != 0 && r.random_key is Some ==> (m matches Ok(k) && k.enc_version == r.enc_version as i32
            && k.random_key == r.random_key->0
            && k.salt@ == (if r.enc_version >= 3 { r.salt@ } else { Seq::empty() })),
{
    if r.encrypted == 0 {
        return Err(bad_request("repo is not encrypted"));
    }
    let random_key = match &r.random_key {
        Some(k) => k.clone(),
        None => return Err(bad_request("repo has no random_key")),
    };
    let salt = if r.enc_version >= 3 {
        r.salt.clone()
    } else {
        String::new()
    };
    Ok(KeyMaterial { enc_version: r.enc_version as i32, random_key, salt })
}

/// Which verifier a password change regenerates.
#[derive(Clone, Copy, Debug, PartialEq, Eq, Structural)]
pub enum NewVerifier {
    /// The library's `pwd_hash`, with its own algorithm and parameters.
    PwdHash,
    /// The legacy `magic`.
    Magic,
}

/// A library with a verifier algorithm keeps using it; otherwise its
/// `magic` is regenerated. A library with neither is corrupt and refused
/// rather than rotated into a state nothing can unlock.
pub fn choose_new_verifier(r: &RepoRow) -> (v: Result<NewVerifier, AppError>)
    ensures
        r.pwd_hash_algo is Some ==> v == Ok::<NewVerifier, AppError>(NewVerifier::PwdHash),
        r.pwd_hash_algo is None && r.magic is Some ==> v == Ok::<NewVerifier, AppError>(NewVerifier::Magic),
        r.pwd_hash_algo is None && r.magic is None ==> (v matches Err(e) && is_bad_request(e, "repo has no magic"@)),
{
    if r.pwd_hash_algo.is_some() {
        Ok(NewVerifier::PwdHash)
    } else if r.magic.is_none() {
        Err(bad_request("repo has no magic"))
    } else {
        Ok(NewVerifier::Magic)
    }
}

/// What [`rekey_random_key`] refuses with, if anything.
pub open spec fn rekey_problem(random_key: Seq<char>, old_key: Seq<u8>, old_iv: Seq<u8>, new_key: Seq<u8>, new_iv: Seq<u8>) -> Option<Seq<char>> {
    match hex_decode_spec(random_key) {
        None => Some("invalid random_key hex"@),
        Some(wrapped) => if !(old_key.len() == 32 && old_iv.len() == 16) {
            Some("cipher init: Invalid Length"@)
        } else {
            match aes256_cbc_decrypt(old_key, old_iv, wrapped) {
                None => Some("failed to decrypt random_key: Padding error"@),
                Some(_) => if !(new_key.len() == 32 && new_iv.len() == 16) {
                    Some("cipher init: Invalid Length"@)
                } else {
                    None
                },
            }
        },
    }
}

/// Re-wrap a library's file key for a new password: unwrap the stored
/// `random_key` (hex of AES-256-CBC/PKCS#7) under the key and IV derived from
/// the old password, and wrap the same secret under those derived from the
/// new one. The file key itself never changes, so every file stays readable.
pub fn rekey_random_key(
    random_key: &str,
    old_key: &[u8],
    old_iv: &[u8],
    new_key: &[u8],
    new_iv: &[u8],
) -> (r: Result<String, AppError>)
    ensures
        match rekey_problem(random_key@, old_key@, old_iv@, new_key@, new_iv@) {
            Some(m) => r matches Err(e) && is_bad_request(e, m),
            None => r matches Ok(s) && {
                let secret = aes256_cbc_decrypt(old_key@, old_iv@, hex_decode_spec(random_key@)->0)->0;
                &&& s@ == hex_encode_spec(aes256_cbc_encrypt(new_key@, new_iv@, secret))
                &&& hex_decode_spec(s@) matches Some(w) && aes256_cbc_decrypt(new_key@, new_iv@, w) == Some(secret)
            },
        },
{
    let wrapped = match hex_decode(random_key) {
        Some(b) => b,
        None => return Err(bad_request("invalid random_key hex")),
    };
    let secret = match aes256_cbc_decrypt_vec(old_key, old_iv, wrapped.as_slice()) {
        Ok(p) => p,
        Err(CipherError::InvalidLength) => return Err(bad_request("cipher init: Invalid Length")),
        Err(CipherError::BadPadding) => return Err(bad_request("failed to decrypt random_key: Padding error")),
    };
    let rewrapped = match aes256_cbc_encrypt_vec(new_key, new_iv, secret.as_slice()) {
        Some(c) => c,
        None => return Err(bad_request("cipher init: Invalid Length")),
    };
    let out = hex_encode(rewrapped.as_slice());
    proof {
        crate::crypto::lemma_hex_round_trip(rewrapped@);
    }
    Ok(out)
}

} // verus!
