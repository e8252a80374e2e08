//! Wikis: the rules their names, publish URLs, pages and hidden storage
//! follow. A wiki is a library holding `_Internal/Wiki/index.json` and one
//! markdown file per page under `/wiki-pages/<doc uuid>/`.

use vstd::prelude::*;
use vstd::utf8::encode_utf8;
use crate::crypto::utf8_bytes;
use crate::error::{AppError, bad_request, is_bad_request};
use crate::text::{
    chars_of, owned, push_char, push_str, starts_with, str_eq, string_of, trim, trimmed_chars,
};

verus! {

/// Where the wiki's configuration lives, relative to the library root.
pub const WIKI_CONFIG_PATH: &'static str = "_Internal/Wiki";
/// The configuration file's name.
pub const WIKI_CONFIG_FILE: &'static str = "index.json";
/// The directory holding the page files.
pub const WIKI_PAGES_DIR: &'static str = "/wiki-pages";

/// A wiki's name: trimmed, non-empty, at most 255 bytes, without `/`.
pub open spec fn wiki_name_ok(name: Seq<char>) -> bool {
    let t = trim(name);
    t.len() > 0 && encode_utf8(t).len() <= 255 && !t.contains('/')
}

/// Check a wiki's name, giving it back trimmed.
pub fn validate_wiki_name(name: &str) -> (r: Result<String, AppError>)
    ensures
        match r {
            Ok(t) => wiki_name_ok(name@) && t@ == trim(name@),
            Err(e) => !wiki_name_ok(name@) && is_bad_request(e, "invalid wiki name"@),
        },
{
    let t = trimmed_chars(name);
    let ts = string_of(t.as_slice());
    let bytes = utf8_bytes(ts.as_str()).len();
    let mut slash = false;
    let mut i: usize = 0;
    while i < t.len()
        invariant
            i <= t@.len(),
            slash == exists|k: int| 0 <= k < i && t@[k] == '/',
        decreases t@.len() - i,
    {
        if t[i] == '/' {
            slash = true;
        }
        i = i + 1;
    }
    proof {
        if slash {
            let k = choose|k: int| 0 <= k < i && t@[k] == '/';
            assert(t@.contains(t@[k]));
        }
        if t@.contains('/') {
            let k = choose|k: int| 0 <= k < t@.len() && t@[k] == '/';
            assert(exists|k: int| 0 <= k < i && t@[k] == '/');
        }
    }
    if t.len() == 0 || bytes > 255 || slash {
        return Err(bad_request("invalid wiki name"));
    }
    Ok(ts)
}

/// Whether a byte may stand in a publish URL: ASCII letters, digits, `-`.
pub open spec fn url_byte_ok(b: u8) -> bool {
    (48 <= b <= 57) || (65 <= b <= 90) || (97 <= b <= 122) || b == 45
}

/// Check the custom part of a wiki's publish URL: trimmed, 5 to 30 bytes,
/// and only letters, digits and `-`.
pub fn validate_publish_url(url: &str) -> (r: Result<String, AppError>)
    ensures
        match r {
            Ok(t) => t@ == trim(url@) && 5 <= encode_utf8(trim(url@)).len() <= 30 && forall|k: int|
                0 <= k < encode_utf8(trim(url@)).len() ==> url_byte_ok(#[trigger] encode_utf8(trim(url@))[k]),
            Err(e) => if !(5 <= encode_utf8(trim(url@)).len() <= 30) {
                is_bad_request(e, "The custom part of URL should have 5-30 characters."@)
            } else {
                is_bad_request(e, "URL is invalid"@) && exists|k: int|
                    0 <= k < encode_utf8(trim(url@)).len() && !url_byte_ok(
                        #[trigger] encode_utf8(trim(url@))[k],
                    )
            },
        },
{
    let t = string_of(trimmed_chars(url).as_slice());
    let b = utf8_bytes(t.as_str());
    if b.len() < 5 || b.len() > 30 {
        return Err(bad_request("The custom part of URL should have 5-30 characters."));
    }
    let mut i: usize = 0;
    while i < b.len()
        invariant
            i <= b@.len(),
            5 <= b@.len() <= 30,
            t@ == trim(url@),
            b@ == encode_utf8(trim(url@)),
            forall|k: int| 0 <= k < i ==> url_byte_ok(#[trigger] b@[k]),
        decreases b@.len() - i,
    {
        let c = b[i];
        if !((48 <= c && c <= 57) || (65 <= c && c <= 90) || (97 <= c && c <= 122) || c == 45) {
            proof {
                assert(!url_byte_ok(b@[i as int]));
            }
            return Err(bad_request("URL is invalid"));
        }
        i = i + 1;
    }
    Ok(t)
}

/// `s` without leading `c`s.
pub open spec fn strip_leading(s: Seq<char>, c: char) -> Seq<char>
    decreases s.len(),
{
    if s.len() > 0 && s[0] == c {
        strip_leading(s.drop_first(), c)
    } else {
        s
    }
}

/// Whether a path points into a wiki's hidden storage: the `_Internal`
/// configuration directory or the `wiki-pages` page files.
pub open spec fn hidden_wiki_path_spec(path: Seq<char>) -> bool {
    let p = strip_leading(path, '/');
    p == "_Internal"@ || starts_with(p, "_Internal/"@) || p == "wiki-pages"@ || starts_with(
        p,
        "wiki-pages/"@,
    )
}

/// Whether a path is kept out of downloads and searches as wiki internals.
pub fn is_hidden_wiki_path(path: &str) -> (b: bool)
    ensures
        b == hidden_wiki_path_spec(path@),
{
    let v = chars_of(path);
    let mut i: usize = 0;
    proof {
        assert(v@.skip(0) =~= v@);
    }
    while i < v.len() && v[i] == '/'
        invariant
            i <= v@.len(),
            strip_leading(v@, '/') == strip_leading(v@.skip(i as int), '/'),
        decreases v@.len() - i,
    {
        proof {
            assert(v@.skip(i as int).drop_first() =~= v@.skip(i + 1));
        }
        i = i + 1;
    }
    let n = v.len();
    let rest = crate::text::slice_range(v.as_slice(), i, n);
    proof {
        assert(rest@ =~= v@.skip(i as int));
        if i < v@.len() {
            assert(rest@[0] != '/');
        }
        assert(strip_leading(rest@, '/') == rest@);
    }
    let a = chars_of("_Internal");
    let b = chars_of("_Internal/");
    let c = chars_of("wiki-pages");
    let d = chars_of("wiki-pages/");
    crate::text::chars_eq(rest.as_slice(), a.as_slice()) || crate::text::starts_with_exec(rest.as_slice(), b.as_slice())
        || crate::text::chars_eq(rest.as_slice(), c.as_slice()) || crate::text::starts_with_exec(rest.as_slice(), d.as_slice())
}

/// The alphabet of page ids.
pub open spec fn page_id_alphabet() -> Seq<char> {
    "ABCDEFGHIJKLMNOPQRSTUVWXYZabcdefghijklmnopqrstuvwxyz0123456789"@
}

/// `rand::rng().random_range(0..n)`: an index below `n`, by chance.
#[verifier::external_body]
fn random_below(n: usize) -> (i: usize)
    requires
        n > 0,
    ensures
        i < n,
{
    rand::RngExt::random_range(&mut rand::rng(), 0..n)
}

/// A fresh page id: four characters drawn uniformly from the base-62
/// alphabet.
pub fn gen_page_id() -> (id: String)
    ensures
        id@.len() == 4,
        forall|k: int| 0 <= k < 4 ==> page_id_alphabet().contains(#[trigger] id@[k]),
{
    let alphabet = chars_of("ABCDEFGHIJKLMNOPQRSTUVWXYZabcdefghijklmnopqrstuvwxyz0123456789");
    proof {
        reveal_strlit("ABCDEFGHIJKLMNOPQRSTUVWXYZabcdefghijklmnopqrstuvwxyz0123456789");
    }
    let mut id = String::new();
    let mut k: usize = 0;
    while k < 4
        invariant
            k <= 4,
            alphabet@ == page_id_alphabet(),
            alphabet@.len() == 62,
            id@.len() == k,
            forall|j: int| 0 <= j < k ==> page_id_alphabet().contains(#[trigger] id@[j]),
        decreases 4 - k,
    {
        let i = random_below(alphabet.len());
        let c = alphabet[i];
        let ghost before = id@;
        push_char(&mut id, c);
        proof {
            assert(page_id_alphabet()[i as int] == c);
            assert forall|j: int| 0 <= j < k + 1 implies page_id_alphabet().contains(#[trigger] id@[j]) by {
                if j < k {
                    assert(id@[j] == before[j]);
                }
            }
        }
        k = k + 1;
    }
    id
}

/// Where a new page's position is: one of `above`, `below`, `inner`.
pub open spec fn insert_position_ok(p: Seq<char>) -> bool {
    p == "above"@ || p == "below"@ || p == "inner"@
}

/// Check a new page's request: its name (trimmed, non-empty, without `/`
/// or `\`) and its position when given; an empty current page or position
/// counts as none. Gives back the trimmed name.
pub fn check_new_page(page_name: &str, insert_position: Option<&str>) -> (r: Result<String, AppError>)
    ensures
        match r {
            Ok(n) => n@ == trim(page_name@) && trim(page_name@).len() > 0 && !trim(page_name@).contains('/')
                && !trim(page_name@).contains('\\') && match insert_position {
                Some(p) => p@.len() == 0 || insert_position_ok(p@),
                None => true,
            },
            Err(e) => {
                let t = trim(page_name@);
                if t.len() == 0 || t.contains('/') || t.contains('\\') {
                    is_bad_request(e, "page_name invalid"@)
                } else {
                    is_bad_request(e, "insert_position invalid"@) && (insert_position matches Some(p)
                        && p@.len() > 0 && !insert_position_ok(p@))
                }
            },
        },
{
    let t = trimmed_chars(page_name);
    let mut bad = false;
    let mut i: usize = 0;
    while i < t.len()
        invariant
            i <= t@.len(),
            bad == exists|k: int| 0 <= k < i && (t@[k] == '/' || t@[k] == '\\'),
        decreases t@.len() - i,
    {
        if t[i] == '/' || t[i] == '\\' {
            bad = true;
        }
        i = i + 1;
    }
    proof {
        if bad {
            let k = choose|k: int| 0 <= k < i && (t@[k] == '/' || t@[k] == '\\');
            assert(t@.contains(t@[k]));
        }
        if t@.contains('/') {
            let k = choose|k: int| 0 <= k < t@.len() && t@[k] == '/';
            assert(exists|k: int| 0 <= k < i && (t@[k] == '/' || t@[k] == '\\'));
        }
        if t@.contains('\\') {
            let k = choose|k: int| 0 <= k < t@.len() && t@[k] == '\\';
            assert(exists|k: int| 0 <= k < i && (t@[k] == '/' || t@[k] == '\\'));
        }
    }
    if t.len() == 0 || bad {
        return Err(bad_request("page_name invalid"));
    }
    match insert_position {
        Some(p) => {
            if !p.is_empty() && !(str_eq(p, "above") || str_eq(p, "below") || str_eq(p, "inner")) {
                return Err(bad_request("insert_position invalid"));
            }
        },
        None => {},
    }
    Ok(string_of(t.as_slice()))
}

/// The insert position a page move stands for: `move_above` is `above`,
/// `move_into` is `inner`, `move_below` is `below`; anything else is
/// refused.
pub fn move_insert_position(move_position: &str) -> (r: Result<&'static str, AppError>)
    ensures
        move_position@ == "move_above"@ ==> r == Ok::<&'static str, AppError>("above"),
        move_position@ == "move_into"@ ==> r == Ok::<&'static str, AppError>("inner"),
        move_position@ == "move_below"@ ==> r == Ok::<&'static str, AppError>("below"),
        !(move_position@ == "move_above"@ || move_position@ == "move_into"@ || move_position@
            == "move_below"@) ==> (r matches Err(e) && is_bad_request(e, "Invalid move_position value"@)),
{
    proof {
        reveal_strlit("move_above");
        reveal_strlit("move_into");
        reveal_strlit("move_below");
        assert("move_above"@[5] != "move_into"@[5]);
        assert("move_above"@[5] != "move_below"@[5]);
        assert("move_into"@[5] != "move_below"@[5]);
    }
    if str_eq(move_position, "move_above") {
        Ok("above")
    } else if str_eq(move_position, "move_into") {
        Ok("inner")
    } else if str_eq(move_position, "move_below") {
        Ok("below")
    } else {
        Err(bad_request("Invalid move_position value"))
    }
}

/// The directory of a page's file: `/wiki-pages/<doc uuid>`.
pub fn page_dir(doc_uuid: &str) -> (d: String)
    ensures
        d@ == "/wiki-pages/"@ + doc_uuid@,
{
    let mut d = owned("/wiki-pages/");
    push_str(&mut d, doc_uuid);
    d
}

/// A page's markdown file name: `<name>.md`.
pub fn page_file_name(page_name: &str) -> (n: String)
    ensures
        n@ == page_name@ + ".md"@,
{
    let mut n = owned(page_name);
    push_str(&mut n, ".md");
    n
}

/// A new page's initial content: its name as a heading.
pub fn new_page_markdown(page_name: &str) -> (m: String)
    ensures
        m@ == "# "@ + page_name@ + "\n\n"@,
{
    let mut m = owned("# ");
    push_str(&mut m, page_name);
    push_str(&mut m, "\n\n");
    m
}

/// Whether a page's file may be changed by `user_id`: not locked, or
/// locked by that user.
pub fn check_page_lock(lock_owner: Option<i32>, user_id: i32, path: &str) -> (r: Result<(), AppError>)
    ensures
        r is Ok <==> (lock_owner is None || lock_owner == Some(user_id)),
        r matches Err(e) ==> (e matches AppError::Locked(p) && p@ == path@),
{
    match lock_owner {
        Some(owner) => if owner != user_id {
            Err(AppError::Locked(owned(path)))
        } else {
            Ok(())
        },
        None => Ok(()),
    }
}

/// The public URL of a published wiki, empty while unpublished.
pub fn public_url(publish_url: Option<&str>) -> (u: String)
    ensures
        u@ == match publish_url {
            Some(s) => "/wiki/publish/"@ + s@,
            None => Seq::empty(),
        },
{
    match publish_url {
        Some(s) => {
            let mut u = owned("/wiki/publish/");
            push_str(&mut u, s);
            u
        },
        None => String::new(),
    }
}

} // verus!
