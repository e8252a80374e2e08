//! CSRF protection using HMAC-derived tokens.
//!
//! Token = HMAC-SHA256(server_secret, session_token), hex encoded. Stateless,
//! derived from the existing session, so no extra server state is needed.
//! Password-protected share and upload links reuse the same construction:
//! the unlock cookie carries the HMAC of the link token.
//!
//! For unauthenticated endpoints (login, register, password reset) the
//! Origin/Referer headers are checked instead ([`validate_origin`]).

use vstd::prelude::*;
use vstd::string::StrSliceExecFns;
use vstd::utf8::{encode_utf8, encode_utf8_decode_utf8};
use crate::crypto::{
    all_hex, ct_eq, hex_encode, hex_encode_spec, hmac_sha256, hmac_sha256_tag, lemma_hex_encode_shape,
    utf8_bytes,
};
use crate::error::{AppError, bad_request, is_bad_request};
use crate::split::{
    find_trimmed_prefixed, find_trimmed_prefixed_exec, lemma_first_piece, lemma_single_piece, split_char,
};
use crate::text::{
    chars_eq, chars_of, contains_seq, decimal, is_ws, occurs_at, lemma_trim_no_ws_ends, push_decimal, push_str, starts_with,
    starts_with_exec, trim,
};

verus! {

/// The CSRF token of a session: hex of HMAC-SHA256(secret, session bytes).
pub open spec fn csrf_token_spec(secret: Seq<u8>, session_token: Seq<char>) -> Seq<char> {
    hex_encode_spec(hmac_sha256(secret, encode_utf8(session_token)))
}

/// The value of cookie `name` in a `Cookie` header: the first `;`-separated
/// entry whose trimmed text starts with `name=`, with that prefix removed.
pub open spec fn cookie_value(header: Seq<char>, name: Seq<char>) -> Option<Seq<char>> {
    find_trimmed_prefixed(split_char(header, ';'), name + "="@)
}

/// The `seahub-session` cookie of a `Cookie` header.
pub open spec fn session_cookie(header: Seq<char>) -> Option<Seq<char>> {
    find_trimmed_prefixed(split_char(header, ';'), "seahub-session="@)
}

/// The `Set-Cookie` value for the CSRF token cookie.
pub open spec fn csrf_cookie_spec(
    secret: Seq<u8>,
    session_token: Seq<char>,
    secure: bool,
    max_age: Option<u64>,
) -> Seq<char> {
    "sfcsrftoken="@ + csrf_token_spec(secret, session_token) + "; Path=/; SameSite=Lax"@ + (
    match max_age {
        Some(age) => "; Max-Age="@ + decimal(age as nat),
        None => Seq::empty(),
    }) + (if secure {
        "; Secure"@
    } else {
        Seq::empty()
    })
}

/// The `Set-Cookie` value that unlocks a password-protected link.
pub open spec fn link_unlock_cookie_spec(
    cookie_name: Seq<char>,
    token: Seq<char>,
    secret: Seq<u8>,
    secure: bool,
) -> Seq<char> {
    cookie_name + "="@ + csrf_token_spec(secret, token)
        + "; Path=/; Max-Age=86400; HttpOnly; SameSite=Lax"@ + (if secure {
        "; Secure"@
    } else {
        Seq::empty()
    })
}

/// A CSRF token holds only hex digits: no separator, no `=`, no space.
proof fn lemma_token_chars(secret: Seq<u8>, session_token: Seq<char>)
    ensures
        all_hex(csrf_token_spec(secret, session_token)),
        forall|i: int|
            0 <= i < csrf_token_spec(secret, session_token).len() ==> {
                let ch = #[trigger] csrf_token_spec(secret, session_token)[i];
                ch != ';' && ch != '=' && !is_ws(ch) && ch != 'S'
            },
{
    lemma_hex_encode_shape(hmac_sha256(secret, encode_utf8(session_token)));
}

/// The cookie this server sets for a link unlocks the link: the name-value
/// pair a browser sends back is the first entry of the `Set-Cookie` value,
/// and a `Cookie` header holding that pair, alone or after another cookie,
/// carries the link's valid unlock value.
pub proof fn the_unlock_cookie_unlocks_the_link(name: Seq<char>, token: Seq<char>, secret: Seq<u8>, secure: bool)
    requires
        name.len() > 0,
        !name.contains(';'),
        !is_ws(name[0]),
    ensures
        ({
            let v = csrf_token_spec(secret, token);
            let pair = name + "="@ + v;
            &&& split_char(link_unlock_cookie_spec(name, token, secret, secure), ';')[0] == pair
            &&& cookie_value(pair, name) == Some(v)
            &&& (name != "other"@ ==> cookie_value("other=1; "@ + pair, name) == Some(v))
        }),
{
    reveal_strlit("=");
    reveal_strlit("; Path=/; Max-Age=86400; HttpOnly; SameSite=Lax");
    reveal_strlit("; Secure");
    reveal_strlit("other=1; ");
    reveal_strlit("other");
    reveal_strlit("other=1");
    let v = csrf_token_spec(secret, token);
    lemma_token_chars(secret, token);
    let prefix = name + "="@;
    let pair = prefix + v;
    let n = name.len() as int;
    assert(pair.len() == n + 1 + v.len());
    assert forall|i: int| 0 <= i < pair.len() implies pair[i] != ';' by {
        if i < n {
            assert(pair[i] == name[i]);
            if pair[i] == ';' {
                assert(name.contains(name[i]));
            }
        } else if i > n {
            assert(pair[i] == v[i - n - 1]);
        }
    }
    assert(!pair.contains(';'));
    // The `Set-Cookie` value: the pair, then the attributes, which start with `;`.
    let c = link_unlock_cookie_spec(name, token, secret, secure);
    let attrs = "; Path=/; Max-Age=86400; HttpOnly; SameSite=Lax"@ + (if secure {
        "; Secure"@
    } else {
        Seq::empty()
    });
    assert(c =~= pair + attrs);
    assert(c[pair.len() as int] == ';');
    lemma_first_piece(c, ';', pair.len() as int);
    assert(c.take(pair.len() as int) =~= pair);
    // The pair alone.
    lemma_single_piece(pair, ';');
    assert(pair[0] == name[0]);
    if v.len() > 0 {
        assert(pair.last() == v[v.len() - 1]);
    } else {
        assert(pair.last() == '=');
    }
    lemma_trim_no_ws_ends(pair);
    assert(pair.subrange(0, prefix.len() as int) =~= prefix);
    assert(pair.skip(prefix.len() as int) =~= v);
    assert(find_trimmed_prefixed(seq![pair], prefix) == Some(v)) by {
        assert(seq![pair][0] == pair);
    }
    // After another cookie.
    if name != "other"@ {
        let h = "other=1; "@ + pair;
        assert(h[7] == ';');
        assert forall|i: int| 0 <= i < 7 implies h[i] != ';' by {}
        lemma_first_piece(h, ';', 7);
        let first = h.take(7);
        assert(first =~= "other=1"@);
        let rest = h.skip(8);
        assert(rest =~= seq![' '] + pair);
        assert(!rest.contains(';')) by {
            assert forall|i: int| 0 <= i < rest.len() implies rest[i] != ';' by {
                if i > 0 {
                    assert(rest[i] == pair[i - 1]);
                }
            }
        }
        lemma_single_piece(rest, ';');
        lemma_trim_no_ws_ends(first);
        assert(!starts_with(first, prefix)) by {
            if starts_with(first, prefix) {
                assert(prefix[n] == '=');
                assert(first.subrange(0, prefix.len() as int)[n] == first[n]);
                assert(first[n] == '=');
                assert(n == 5);
                assert(name =~= first.take(5));
                assert("other"@ =~= first.take(5));
            }
        }
        assert(trim(rest) == pair) by {
            assert(rest.drop_first() =~= pair);
            lemma_trim_no_ws_ends(pair);
        }
        let pieces = seq![first] + seq![rest];
        assert(split_char(h, ';') =~= pieces);
        assert(pieces.drop_first() =~= seq![rest]);
        assert(find_trimmed_prefixed(seq![rest], prefix) == Some(v)) by {
            assert(seq![rest][0] == rest);
        }
    }
}

/// The attributes of an unlock cookie never spell `Secure`.
proof fn lemma_attributes_not_secure(j: int)
    ensures
        !occurs_at("; Path=/; Max-Age=86400; HttpOnly; SameSite=Lax"@, "Secure"@, j),
{
    reveal_strlit("; Path=/; Max-Age=86400; HttpOnly; SameSite=Lax");
    reveal_strlit("Secure");
    let l = "; Path=/; Max-Age=86400; HttpOnly; SameSite=Lax"@;
    if occurs_at(l, "Secure"@, j) {
        assert(l.subrange(j, j + 6)[0] == l[j]);
        assert(l.subrange(j, j + 6)[1] == l[j + 1]);
        assert(l[j] == 'S' && l[j + 1] == 'e');
        assert(false);
    }
}

/// Only a secure site marks an unlock cookie `Secure`: the secure cookie is
/// the other one with `; Secure` appended, and the other one never says
/// `Secure` unless the cookie's name does.
pub proof fn only_a_secure_site_marks_the_cookie_secure(name: Seq<char>, token: Seq<char>, secret: Seq<u8>)
    requires
        !contains_seq(name, "Secure"@),
    ensures
        link_unlock_cookie_spec(name, token, secret, true) == link_unlock_cookie_spec(name, token, secret, false)
            + "; Secure"@,
        !contains_seq(link_unlock_cookie_spec(name, token, secret, false), "Secure"@),
{
    reveal_strlit("Secure");
    reveal_strlit("=");
    let v = csrf_token_spec(secret, token);
    lemma_token_chars(secret, token);
    let l = "; Path=/; Max-Age=86400; HttpOnly; SameSite=Lax"@;
    let p = link_unlock_cookie_spec(name, token, secret, false);
    assert(p =~= name + "="@ + v + l);
    assert(link_unlock_cookie_spec(name, token, secret, true) =~= p + "; Secure"@);
    let n = name.len() as int;
    let m = n + 1 + v.len();
    assert forall|i: int| !occurs_at(p, "Secure"@, i) by {
        if occurs_at(p, "Secure"@, i) {
            let w = p.subrange(i, i + 6);
            assert(w[0] == p[i]);
            if i + 6 <= n {
                assert(name.subrange(i, i + 6) =~= w);
                assert(occurs_at(name, "Secure"@, i));
            } else if i <= n {
                assert(p[n] == '=');
                assert(w[n - i] == p[n]);
            } else if i < m {
                assert(p[i] == v[i - n - 1]);
            } else {
                assert(l.subrange(i - m, i - m + 6) =~= w);
                lemma_attributes_not_secure(i - m);
            }
        }
    }
}

/// What [`validate_origin`] decides from the two headers.
pub open spec fn origin_ok(origin: Option<Seq<char>>, referer: Option<Seq<char>>, site: Seq<char>) -> bool {
    match origin {
        Some(o) => o == site,
        None => match referer {
            Some(r) => starts_with(r, site + "/"@) || r == site,
            None => true,
        },
    }
}

proof fn lemma_utf8_injective(a: Seq<char>, b: Seq<char>)
    ensures
        (encode_utf8(a) == encode_utf8(b)) <==> (a == b),
{
    encode_utf8_decode_utf8(a);
    encode_utf8_decode_utf8(b);
}

/// Generate the CSRF token for the given session token.
pub fn generate_csrf_token(secret: &[u8], session_token: &str) -> (token: String)
    ensures
        token@ == csrf_token_spec(secret@, session_token@),
{
    let tag = hmac_sha256_tag(secret, utf8_bytes(session_token));
    hex_encode(tag.as_slice())
}

/// Validate a CSRF token against the session token, comparing in constant
/// time.
pub fn validate_csrf_token(secret: &[u8], session_token: &str, csrf_token: &str) -> (ok: bool)
    ensures
        ok == (csrf_token@ == csrf_token_spec(secret@, session_token@)),
{
    let expected = generate_csrf_token(secret, session_token);
    let r = ct_eq(utf8_bytes(expected.as_str()), utf8_bytes(csrf_token));
    proof {
        lemma_utf8_injective(expected@, csrf_token@);
    }
    r
}

/// Extract the `seahub-session` token from a `Cookie` header string.
pub fn extract_session_token(cookie_str: &str) -> (token: Option<&str>)
    ensures
        match token {
            Some(t) => session_cookie(cookie_str@) == Some(t@),
            None => session_cookie(cookie_str@) is None,
        },
{
    let v = chars_of(cookie_str);
    let prefix = chars_of("seahub-session=");
    match find_trimmed_prefixed_exec(v.as_slice(), ';', prefix.as_slice()) {
        Some((a, b)) => Some(cookie_str.substring_char(a, b)),
        None => None,
    }
}

/// Validate a CSRF token from a form field for an authenticated user.
pub fn check_form_csrf(csrf_secret: &[u8], session_token: &str, csrf_token: Option<&str>) -> (r: Result<(), AppError>)
    ensures
        match csrf_token {
            None => r matches Err(e) && is_bad_request(e, "CSRF token is required."@),
            Some(t) => if t@ == csrf_token_spec(csrf_secret@, session_token@) {
                r is Ok
            } else {
                r matches Err(e) && is_bad_request(e, "Invalid CSRF token."@)
            },
        },
{
    match csrf_token {
        Some(token) => {
            if validate_csrf_token(csrf_secret, session_token, token) {
                Ok(())
            } else {
                Err(bad_request("Invalid CSRF token."))
            }
        },
        None => Err(bad_request("CSRF token is required.")),
    }
}

/// The `Set-Cookie` value for the CSRF token cookie (`sfcsrftoken`).
///
/// Deliberately not `HttpOnly`, so the page's script can read it and echo it
/// as an `X-CSRFToken` header. `max_age` should match the session cookie's;
/// `None` gives a session-scoped cookie.
pub fn csrf_cookie_header(secret: &[u8], session_token: &str, secure: bool, max_age: Option<u64>) -> (cookie: String)
    ensures
        cookie@ == csrf_cookie_spec(secret@, session_token@, secure, max_age),
{
    let token = generate_csrf_token(secret, session_token);
    let mut cookie = String::new();
    push_str(&mut cookie, "sfcsrftoken=");
    push_str(&mut cookie, token.as_str());
    push_str(&mut cookie, "; Path=/; SameSite=Lax");
    let ghost base = cookie@;
    match max_age {
        Some(age) => {
            push_str(&mut cookie, "; Max-Age=");
            push_decimal(&mut cookie, age);
        },
        None => {},
    }
    let ghost with_age = cookie@;
    if secure {
        push_str(&mut cookie, "; Secure");
    }
    proof {
        assert(cookie@ =~= csrf_cookie_spec(secret@, session_token@, secure, max_age));
    }
    cookie
}

/// Validate an `X-CSRFToken` header value against the session's token; a
/// missing (or unreadable) header never validates.
pub fn validate_csrf_header(header_value: Option<&str>, secret: &[u8], session_token: &str) -> (ok: bool)
    ensures
        ok == (header_value matches Some(v) && v@ == csrf_token_spec(secret@, session_token@)),
{
    match header_value {
        Some(v) => validate_csrf_token(secret, session_token, v),
        None => false,
    }
}

/// Cookie name holding the upload-link password unlock.
pub fn upload_link_cookie_name(token: &str) -> (name: String)
    ensures
        name@ == "visited_ufs_"@ + token@,
{
    let mut name = String::new();
    push_str(&mut name, "visited_ufs_");
    push_str(&mut name, token);
    name
}

/// Cookie name holding the share-link password unlock.
pub fn share_link_cookie_name(token: &str) -> (name: String)
    ensures
        name@ == "visited_sl_"@ + token@,
{
    let mut name = String::new();
    push_str(&mut name, "visited_sl_");
    push_str(&mut name, token);
    name
}

/// Whether a `Cookie` header carries a valid password-unlock cookie: its
/// value has to be the HMAC of the link token, so a client that never
/// entered the password cannot mint it (a plain `=1` is refused).
pub fn has_link_unlock_cookie(
    cookie_header: Option<&str>,
    cookie_name: &str,
    token: &str,
    secret: &[u8],
) -> (ok: bool)
    ensures
        ok == (cookie_header matches Some(h) && cookie_value(h@, cookie_name@) matches Some(v)
            && v == csrf_token_spec(secret@, token@)),
{
    let header = match cookie_header {
        Some(h) => h,
        None => return false,
    };
    let mut prefix = chars_of(cookie_name);
    prefix.push('=');
    proof {
        assert(prefix@ =~= cookie_name@ + "="@) by {
            reveal_strlit("=");
        }
    }
    let v = chars_of(header);
    match find_trimmed_prefixed_exec(v.as_slice(), ';', prefix.as_slice()) {
        Some((a, b)) => {
            let value = header.substring_char(a, b);
            validate_csrf_token(secret, token, value)
        },
        None => false,
    }
}

/// The `Set-Cookie` value that unlocks a password-protected link for this
/// browser. `secure` follows the site's scheme.
pub fn link_unlock_cookie(cookie_name: &str, token: &str, secret: &[u8], secure: bool) -> (cookie: String)
    ensures
        cookie@ == link_unlock_cookie_spec(cookie_name@, token@, secret@, secure),
{
    let sig = generate_csrf_token(secret, token);
    let mut cookie = String::new();
    push_str(&mut cookie, cookie_name);
    push_str(&mut cookie, "=");
    push_str(&mut cookie, sig.as_str());
    push_str(&mut cookie, "; Path=/; Max-Age=86400; HttpOnly; SameSite=Lax");
    if secure {
        push_str(&mut cookie, "; Secure");
    }
    proof {
        assert(cookie@ =~= link_unlock_cookie_spec(cookie_name@, token@, secret@, secure));
    }
    cookie
}

/// Whether a `Cookie` header carries a valid `visited_ufs_{token}` unlock
/// cookie for an upload link.
pub fn has_valid_upload_link_cookie(cookie_header: Option<&str>, token: &str, secret: &[u8]) -> (ok: bool)
    ensures
        ok == (cookie_header matches Some(h) && cookie_value(h@, "visited_ufs_"@ + token@) matches Some(v)
            && v == csrf_token_spec(secret@, token@)),
{
    let name = upload_link_cookie_name(token);
    has_link_unlock_cookie(cookie_header, name.as_str(), token, secret)
}

/// Validate the `Origin`/`Referer` headers against the site's origin, for
/// endpoints that have no session yet. `Origin` wins when present; a
/// `Referer` must be the origin itself or lie under it; a request with
/// neither (curl, other non-browser clients) is accepted.
pub fn validate_origin(origin: Option<&str>, referer: Option<&str>, site_url_origin: &str) -> (ok: bool)
    ensures
        ok == origin_ok(
            match origin { Some(o) => Some(o@), None => None },
            match referer { Some(r) => Some(r@), None => None },
            site_url_origin@,
        ),
{
    let site = chars_of(site_url_origin);
    match origin {
        Some(o) => {
            let ov = chars_of(o);
            chars_eq(ov.as_slice(), site.as_slice())
        },
        None => match referer {
            Some(r) => {
                let rv = chars_of(r);
                let mut under = site.clone();
                under.push('/');
                proof {
                    assert(under@ =~= site_url_origin@ + "/"@) by {
                        reveal_strlit("/");
                    }
                }
                starts_with_exec(rv.as_slice(), under.as_slice()) || chars_eq(rv.as_slice(), site.as_slice())
            },
            None => true,
        },
    }
}

} // verus!
