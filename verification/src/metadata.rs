//! File metadata in the shape of the metadata service the mobile clients
//! speak: a file record is addressed by a `record_id` that is the lowercase
//! hex of its path's UTF-8 bytes, so no record table is needed; repo tags
//! are created, renamed, deleted and attached to files.

use vstd::prelude::*;
use vstd::utf8::{decode_utf8, encode_utf8, valid_utf8};
use crate::crypto::{hex_encode_spec, hex_lower, hex_digit_value, utf8_bytes};
use crate::error::{AppError, bad_request, is_bad_request, is_not_found, not_found};
use crate::dirent::{DirEntry, find_named, first_named, is_dir_mode, is_dir_mode_spec};
use crate::text::{
    char_of_digit, chars_of, is_digit, owned, parse_i32, parse_i32_spec, push_char, push_str, signed_decimal,
    str_eq, trim, trimmed_chars,
};

verus! {

// ─── Record ids ───────────────────────────────────────────────────────────

/// The hex digit of a nibble.
fn nibble_char(d: u8) -> (c: char)
    requires
        d < 16,
    ensures
        c == hex_lower(d as nat),
{
    if d < 10 {
        char_of_digit(d)
    } else {
        let v: u8 = 97 + (d - 10);
        v as char
    }
}

/// The record id of a file: the lowercase hex of its path's UTF-8 bytes.
pub open spec fn record_id_spec(path: Seq<char>) -> Seq<char> {
    hex_encode_spec(encode_utf8(path))
}

/// Derive the opaque, reversible record id of a file path.
pub fn record_id_from_path(path: &str) -> (r: String)
    ensures
        r@ == record_id_spec(path@),
{
    let bytes = utf8_bytes(path);
    let mut out = String::new();
    let mut i: usize = 0;
    while i < bytes.len()
        invariant
            i <= bytes@.len(),
            bytes@ == encode_utf8(path@),
            out@ == hex_encode_spec(bytes@.take(i as int)),
        decreases bytes@.len() - i,
    {
        let b = bytes[i];
        let hi = nibble_char(b / 16);
        let lo = nibble_char(b % 16);
        let ghost before = out@;
        push_char(&mut out, hi);
        push_char(&mut out, lo);
        i = i + 1;
        proof {
            let t = bytes@.take(i as int);
            assert(t.drop_last() =~= bytes@.take(i - 1));
            assert(out@ =~= hex_encode_spec(t)) by {
                let e = hex_encode_spec(t);
                assert forall|k: int| 0 <= k < e.len() implies out@[k] == #[trigger] e[k] by {
                    if k < 2 * (i - 1) {
                        assert(before[k] == hex_encode_spec(bytes@.take(i - 1))[k]);
                        assert(t[k / 2] == bytes@.take(i - 1)[k / 2]);
                    }
                }
            }
        }
    }
    proof {
        assert(bytes@.take(i as int) =~= bytes@);
    }
    out
}

/// Whether a character is a lowercase hex digit.
pub open spec fn is_lower_hex(c: char) -> bool {
    is_digit(c) || ('a' <= c && c <= 'f')
}

/// The bytes of a string of lowercase hex digit pairs.
pub open spec fn lower_hex_bytes(s: Seq<char>) -> Seq<u8> {
    Seq::new(s.len() / 2, |i: int| (hex_digit_value(s[2 * i]) * 16 + hex_digit_value(s[2 * i + 1])) as u8)
}

/// The path a record id stands for: a non-empty, even-length string of
/// lowercase hex digits whose bytes are UTF-8 text starting with `/`.
pub open spec fn record_path_spec(rid: Seq<char>) -> Option<Seq<char>> {
    if rid.len() == 0 || rid.len() % 2 != 0 || !(forall|k: int| 0 <= k < rid.len() ==> is_lower_hex(#[trigger] rid[k])) {
        None
    } else if !valid_utf8(lower_hex_bytes(rid)) {
        None
    } else {
        let p = decode_utf8(lower_hex_bytes(rid));
        if p.len() > 0 && p[0] == '/' {
            Some(p)
        } else {
            None
        }
    }
}

/// `String::from_utf8`: the text of valid UTF-8 bytes, none otherwise.
#[verifier::external_body]
fn string_from_utf8(bytes: Vec<u8>) -> (r: Option<String>)
    ensures
        r is Some <==> valid_utf8(bytes@),
        r matches Some(s) ==> encode_utf8(s@) == bytes@,
{
    String::from_utf8(bytes).ok()
}

/// The value of a lowercase hex digit, none for any other character.
fn lower_hex_value(c: char) -> (v: Option<u8>)
    ensures
        v is Some <==> is_lower_hex(c),
        v matches Some(x) ==> x == hex_digit_value(c) && x < 16,
{
    if '0' <= c && c <= '9' {
        Some(((c as u32) - 48) as u8)
    } else if 'a' <= c && c <= 'f' {
        Some(((c as u32) - 87) as u8)
    } else {
        None
    }
}

/// Recover the file path of a record id; `invalid record id` for anything
/// that is not one.
pub fn path_from_record_id(record_id: &str) -> (r: Result<String, AppError>)
    ensures
        match record_path_spec(record_id@) {
            Some(p) => r matches Ok(s) && s@ == p,
            None => r matches Err(e) && is_bad_request(e, "invalid record id"@),
        },
{
    let v = chars_of(record_id);
    let n = v.len();
    if n == 0 || n % 2 != 0 {
        return Err(bad_request("invalid record id"));
    }
    let mut bytes: Vec<u8> = Vec::new();
    let mut i: usize = 0;
    while i < n / 2
        invariant
            v@ == record_id@,
            n == v@.len(),
            n % 2 == 0,
            i <= n / 2,
            forall|k: int| 0 <= k < 2 * i ==> is_lower_hex(#[trigger] v@[k]),
            bytes@ == lower_hex_bytes(v@).take(i as int),
        decreases n / 2 - i,
    {
        let hi = lower_hex_value(v[2 * i]);
        let lo = lower_hex_value(v[2 * i + 1]);
        match (hi, lo) {
            (Some(h), Some(l)) => {
                bytes.push(h * 16 + l);
                i = i + 1;
                proof {
                    assert(bytes@ =~= lower_hex_bytes(v@).take(i as int));
                    assert forall|k: int| 0 <= k < 2 * i implies is_lower_hex(#[trigger] v@[k]) by {
                        if k >= 2 * (i - 1) {
                            if k == 2 * (i - 1) {
                            } else {
                                assert(k == 2 * (i - 1) + 1);
                            }
                        }
                    }
                }
            },
            _ => {
                proof {
                    if hi is None {
                        assert(!is_lower_hex(v@[2 * i as int]));
                    } else {
                        assert(!is_lower_hex(v@[2 * i + 1]));
                    }
                }
                return Err(bad_request("invalid record id"));
            },
        }
    }
    proof {
        assert(bytes@ =~= lower_hex_bytes(v@));
    }
    match string_from_utf8(bytes) {
        None => Err(bad_request("invalid record id")),
        Some(s) => {
            let c = chars_of(s.as_str());
            proof {
                vstd::utf8::encode_utf8_decode_utf8(s@);
            }
            if c.len() > 0 && c[0] == '/' {
                Ok(s)
            } else {
                Err(bad_request("invalid record id"))
            }
        },
    }
}

proof fn lemma_nibble(d: nat)
    requires
        d < 16,
    ensures
        is_lower_hex(hex_lower(d)),
        hex_digit_value(hex_lower(d)) == d,
{
}

/// A record id is reversible: the id of any path that starts with `/` leads
/// back to that path.
pub proof fn record_ids_round_trip(path: Seq<char>)
    requires
        path.len() > 0,
        path[0] == '/',
    ensures
        record_path_spec(record_id_spec(path)) == Some(path),
{
    let b = encode_utf8(path);
    let rid = hex_encode_spec(b);
    vstd::utf8::encode_utf8_valid_utf8(path);
    vstd::utf8::encode_utf8_decode_utf8(path);
    assert(rid.len() == 2 * b.len());
    if b.len() == 0 {
        assert(decode_utf8(b) =~= Seq::<char>::empty()) by {
            vstd::utf8::decode_utf8_encode_utf8(b);
        }
        assert(false);
    }
    assert forall|k: int| 0 <= k < rid.len() implies is_lower_hex(#[trigger] rid[k]) by {
        lemma_nibble((b[k / 2] / 16) as nat);
        lemma_nibble((b[k / 2] % 16) as nat);
    }
    assert(lower_hex_bytes(rid) =~= b) by {
        assert forall|i: int| 0 <= i < b.len() implies #[trigger] lower_hex_bytes(rid)[i] == b[i] by {
            lemma_nibble((b[i] / 16) as nat);
            lemma_nibble((b[i] % 16) as nat);
            assert((2 * i) / 2 == i);
            assert((2 * i + 1) / 2 == i);
            assert((2 * i) % 2 == 0);
            assert((2 * i + 1) % 2 == 1);
        }
    }
}

// ─── Records ──────────────────────────────────────────────────────────────

/// The parent directory of a record request (`/` for an empty one) and the
/// file's full path under it.
pub open spec fn record_location_spec(parent_dir: Seq<char>, file_name: Seq<char>) -> (Seq<char>, Seq<char>) {
    let parent = if parent_dir.len() == 0 { seq!['/'] } else { parent_dir };
    (parent, if parent == seq!['/'] { seq!['/'] + file_name } else { parent + seq!['/'] + file_name })
}

/// Where a requested record lives.
pub fn record_location(parent_dir: &str, file_name: &str) -> (r: (String, String))
    ensures
        (r.0@, r.1@) == record_location_spec(parent_dir@, file_name@),
{
    proof {
        reveal_strlit("/");
        assert("/"@ =~= seq!['/']);
    }
    let parent = if parent_dir.is_empty() {
        owned("/")
    } else {
        owned(parent_dir)
    };
    let ghost sp = record_location_spec(parent_dir@, file_name@).0;
    assert(parent@ == sp);
    let mut path = String::new();
    if str_eq(parent.as_str(), "/") {
        push_char(&mut path, '/');
        push_str(&mut path, file_name);
        proof {
            assert(sp == seq!['/']);
            assert(path@ =~= seq!['/'] + file_name@);
        }
    } else {
        push_str(&mut path, parent.as_str());
        push_char(&mut path, '/');
        push_str(&mut path, file_name);
        proof {
            assert(sp != seq!['/']);
            assert(path@ =~= sp + seq!['/'] + file_name@);
        }
    }
    (parent, path)
}

/// The metadata switches of a library: `enabled` and `tags_enabled`, each
/// on unless its stored configuration turns it off.
pub fn metadata_flags(config: Option<(Option<bool>, Option<bool>)>) -> (r: (bool, bool))
    ensures
        r.0 == !(config matches Some((Some(e), _)) && !e),
        r.1 == !(config matches Some((_, Some(t))) && !t),
{
    match config {
        Some((enabled, tags_enabled)) => (
            match enabled {
                Some(e) => e,
                None => true,
            },
            match tags_enabled {
                Some(t) => t,
                None => true,
            },
        ),
        None => (true, true),
    }
}

/// A value sent for a record field.
#[derive(Debug, Clone, PartialEq, Eq)]
pub enum FieldValue {
    Null,
    /// A JSON string.
    Text(String),
    /// Any other JSON value, as its JSON text.
    Json(String),
}

/// The stored form of a sent field value: none for null, the text of a
/// string, the JSON text of anything else.
pub open spec fn stored_value(v: FieldValue) -> Option<Seq<char>> {
    match v {
        FieldValue::Null => None,
        FieldValue::Text(s) => Some(s@),
        FieldValue::Json(j) => Some(j@),
    }
}

/// Whether a sent field is one the record keeps: not `_tags`, not `_id`.
pub open spec fn kept_field(key: Seq<char>) -> bool {
    key != "_tags"@ && key != "_id"@
}

/// The fields of a record update to store, in order.
pub fn record_fields(data: &[(String, FieldValue)]) -> (out: Vec<(String, Option<String>)>)
    ensures
        out@.map_values(|f: (String, Option<String>)| (f.0@, match f.1 { Some(v) => Some(v@), None => None }))
            == data@.filter(|d: (String, FieldValue)| kept_field(d.0@)).map_values(
            |d: (String, FieldValue)| (d.0@, stored_value(d.1)),
        ),
{
    let ghost keep = |d: (String, FieldValue)| kept_field(d.0@);
    let ghost f = |x: (String, Option<String>)| (x.0@, match x.1 { Some(v) => Some(v@), None => None });
    let ghost g = |d: (String, FieldValue)| (d.0@, stored_value(d.1));
    let mut out: Vec<(String, Option<String>)> = Vec::new();
    let mut i: usize = 0;
    proof {
        reveal(Seq::filter);
    }
    while i < data.len()
        invariant
            i <= data@.len(),
            keep == (|d: (String, FieldValue)| kept_field(d.0@)),
            f == (|x: (String, Option<String>)| (x.0@, match x.1 { Some(v) => Some(v@), None => None })),
            g == (|d: (String, FieldValue)| (d.0@, stored_value(d.1))),
            out@.map_values(f) == data@.take(i as int).filter(keep).map_values(g),
        decreases data@.len() - i,
    {
        let ghost before = data@.take(i as int).filter(keep);
        proof {
            let t = data@.take(i + 1);
            assert(t.drop_last() =~= data@.take(i as int));
            reveal(Seq::filter);
        }
        let key = &data[i].0;
        if !(str_eq(key.as_str(), "_tags") || str_eq(key.as_str(), "_id")) {
            let value = match &data[i].1 {
                FieldValue::Null => None,
                FieldValue::Text(t) => Some(t.clone()),
                FieldValue::Json(j) => Some(j.clone()),
            };
            let ghost old_out = out@;
            out.push((key.clone(), value));
            proof {
                assert(data@.take(i + 1).filter(keep) =~= before.push(data@[i as int]));
                assert(out@.map_values(f) =~= old_out.map_values(f).push(f(out@.last())));
                assert(data@.take(i + 1).filter(keep).map_values(g) =~= before.map_values(g).push(g(data@[i as int])));
            }
        } else {
            proof {
                assert(data@.take(i + 1).filter(keep) =~= before);
            }
        }
        i = i + 1;
    }
    proof {
        assert(data@.take(i as int) =~= data@);
    }
    out
}

// ─── Tags ─────────────────────────────────────────────────────────────────

/// The color of a tag created or updated without one.
pub open spec fn default_tag_color() -> Seq<char> {
    "#e6e6e6"@
}

/// A tag as a create request sends it: its `_tag_name` and `_tag_color`
/// when they are strings.
#[derive(Debug, Clone)]
pub struct TagRequest {
    pub name: Option<String>,
    pub color: Option<String>,
}

/// A tag to create.
#[derive(Debug, Clone, PartialEq, Eq)]
pub struct TagInput {
    pub name: String,
    pub color: String,
}

/// Whether a create request's tag is one to create: it has a name that is
/// not blank.
pub open spec fn creatable(t: TagRequest) -> bool {
    t.name matches Some(n) && trim(n@).len() > 0
}

/// The tag a creatable request stands for: its name as sent, its color or
/// the default.
pub open spec fn tag_input_of(t: TagRequest) -> (Seq<char>, Seq<char>) {
    (t.name->Some_0@, match t.color {
        Some(c) => c@,
        None => default_tag_color(),
    })
}

/// The tags a create request asks for, in order, skipping nameless and
/// blank ones.
pub fn tag_inputs(items: &[TagRequest]) -> (out: Vec<TagInput>)
    ensures
        out@.map_values(|t: TagInput| (t.name@, t.color@)) == items@.filter(|t: TagRequest| creatable(t)).map_values(
            |t: TagRequest| tag_input_of(t),
        ),
{
    let ghost keep = |t: TagRequest| creatable(t);
    let ghost f = |t: TagInput| (t.name@, t.color@);
    let ghost g = |t: TagRequest| tag_input_of(t);
    let mut out: Vec<TagInput> = Vec::new();
    let mut i: usize = 0;
    proof {
        reveal(Seq::filter);
        reveal_strlit("#e6e6e6");
    }
    while i < items.len()
        invariant
            i <= items@.len(),
            keep == (|t: TagRequest| creatable(t)),
            f == (|t: TagInput| (t.name@, t.color@)),
            g == (|t: TagRequest| tag_input_of(t)),
            out@.map_values(f) == items@.take(i as int).filter(keep).map_values(g),
        decreases items@.len() - i,
    {
        let ghost before = items@.take(i as int).filter(keep);
        proof {
            let t = items@.take(i + 1);
            assert(t.drop_last() =~= items@.take(i as int));
            reveal(Seq::filter);
        }
        match &items[i].name {
            Some(name) => {
                let t = trimmed_chars(name.as_str());
                if t.len() > 0 {
                    let color = match &items[i].color {
                        Some(c) => c.clone(),
                        None => owned("#e6e6e6"),
                    };
                    let ghost old_out = out@;
                    let input = TagInput { name: name.clone(), color };
                    out.push(input);
                    proof {
                        assert(items@.take(i + 1).filter(keep) =~= before.push(items@[i as int]));
                        assert(out@.map_values(f) =~= old_out.map_values(f).push(f(input)));
                        assert(items@.take(i + 1).filter(keep).map_values(g) =~= before.map_values(g).push(
                            g(items@[i as int]),
                        ));
                    }
                } else {
                    proof {
                        assert(items@.take(i + 1).filter(keep) =~= before);
                    }
                }
            },
            None => {
                proof {
                    assert(items@.take(i + 1).filter(keep) =~= before);
                }
            },
        }
        i = i + 1;
    }
    proof {
        assert(items@.take(i as int) =~= items@);
    }
    out
}

/// The slice `[start, start + limit)` of `len` tags, clipped to the list.
pub open spec fn tag_window(len: int, start: int, limit: int) -> (int, int) {
    let s = if start < len { start } else { len };
    (s, if limit < len - s { s + limit } else { len })
}

/// The window of a tag listing: skip `start`, take `limit`.
pub fn tag_page(len: usize, start: usize, limit: usize) -> (r: (usize, usize))
    ensures
        (r.0 as int, r.1 as int) == tag_window(len as int, start as int, limit as int),
{
    let s = if start < len { start } else { len };
    let e = if limit < len - s { s + limit } else { len };
    (s, e)
}

/// The id a tag update item addresses: its `tag_id` parsed as a number, when
/// the item also carries a `tag`; none to skip the item.
pub fn tag_update_id(tag_id: Option<&str>, has_tag: bool) -> (r: Option<i32>)
    ensures
        r == match tag_id {
            Some(t) => if has_tag { parse_i32_spec(t@) } else { None },
            None => None,
        },
{
    match tag_id {
        Some(t) => if has_tag {
            parse_i32(t)
        } else {
            None
        },
        None => None,
    }
}

/// The name and color an update sets: empty name and the default color
/// for what it leaves out.
pub fn tag_update_values(name: Option<&str>, color: Option<&str>) -> (r: (String, String))
    ensures
        r.0@ == match name {
            Some(n) => n@,
            None => Seq::empty(),
        },
        r.1@ == match color {
            Some(c) => c@,
            None => default_tag_color(),
        },
{
    proof {
        reveal_strlit("#e6e6e6");
    }
    (
        match name {
            Some(n) => owned(n),
            None => String::new(),
        },
        match color {
            Some(c) => owned(c),
            None => owned("#e6e6e6"),
        },
    )
}

/// Whether to apply an update to tag `id`: `existing_repo` is the library of
/// the stored tag (none when there is no such tag), `dup_id` the id of the
/// library's tag that already has the new name. A tag of another library is
/// skipped; renaming onto another tag's name is refused.
pub fn tag_rename_allowed(existing_repo: Option<&str>, repo_id: &str, dup_id: Option<i32>, id: i32) -> (r: Result<
    bool,
    AppError,
>)
    ensures
        match existing_repo {
            None => r == Ok::<bool, AppError>(false),
            Some(er) => if er@ != repo_id@ {
                r == Ok::<bool, AppError>(false)
            } else if dup_id matches Some(d) && d != id {
                r matches Err(e) && is_bad_request(e, "repo tag already exist"@)
            } else {
                r == Ok::<bool, AppError>(true)
            },
        },
{
    match existing_repo {
        None => Ok(false),
        Some(er) => {
            if !str_eq(er, repo_id) {
                return Ok(false);
            }
            match dup_id {
                Some(d) => if d != id {
                    return Err(bad_request("repo tag already exist"));
                },
                None => {},
            }
            Ok(true)
        },
    }
}

/// Whether a tag belongs to the library: it exists and is the library's.
pub fn tag_in_repo(tag_repo: Option<&str>, repo_id: &str) -> (b: bool)
    ensures
        b == (tag_repo matches Some(t) && t@ == repo_id@),
{
    match tag_repo {
        Some(t) => str_eq(t, repo_id),
        None => false,
    }
}

/// A tag whose files are listed must be the library's: `tag not found`
/// otherwise.
pub fn check_tag_in_repo(tag_repo: Option<&str>, repo_id: &str) -> (r: Result<(), AppError>)
    ensures
        r is Ok <==> (tag_repo matches Some(t) && t@ == repo_id@),
        r matches Err(e) ==> is_not_found(e, "tag not found"@),
{
    if tag_in_repo(tag_repo, repo_id) {
        Ok(())
    } else {
        Err(not_found("tag not found"))
    }
}

/// Whether every requested tag id parses and names a tag of the library.
pub open spec fn tag_ids_ok(tags: Seq<Option<String>>, valid: Seq<i32>) -> bool {
    forall|k: int|
        0 <= k < tags.len() ==> ({
            let p = parse_i32_spec(match #[trigger] tags[k] { Some(t) => t@, None => Seq::empty() });
            p is Some && valid.contains(p->Some_0)
        })
}

/// The tag ids a file is to carry: each sent value parsed (a value that is
/// not a string counts as empty text), each one of the library's tags;
/// `invalid tag id` for any that is not.
pub fn file_tag_ids(tags: &[Option<String>], valid_ids: &[i32]) -> (r: Result<Vec<i32>, AppError>)
    ensures
        r is Ok <==> tag_ids_ok(tags@, valid_ids@),
        r matches Ok(ids) ==> ids@.len() == tags@.len() && forall|k: int|
            0 <= k < ids@.len() ==> Some(#[trigger] ids@[k]) == parse_i32_spec(
                match tags@[k] { Some(t) => t@, None => Seq::empty() },
            ),
        r matches Err(e) ==> is_bad_request(e, "invalid tag id"@),
{
    let mut ids: Vec<i32> = Vec::new();
    let mut i: usize = 0;
    while i < tags.len()
        invariant
            i <= tags@.len(),
            ids@.len() == i,
            tag_ids_ok(tags@.take(i as int), valid_ids@),
            forall|k: int|
                0 <= k < i ==> Some(#[trigger] ids@[k]) == parse_i32_spec(
                    match tags@[k] { Some(t) => t@, None => Seq::empty() },
                ),
        decreases tags@.len() - i,
    {
        let parsed = match &tags[i] {
            Some(t) => parse_i32(t.as_str()),
            None => {
                proof {
                    assert(parse_i32_spec(Seq::<char>::empty()) is None);
                }
                None
            },
        };
        let ghost text = match tags@[i as int] { Some(t) => t@, None => Seq::<char>::empty() };
        match parsed {
            None => {
                proof {
                    assert(!tag_ids_ok(tags@, valid_ids@)) by {
                        assert(parse_i32_spec(text) is None);
                        let kk = i as int;
                        assert(tags@[kk] == tags@[i as int]);
                    }
                }
                return Err(bad_request("invalid tag id"));
            },
            Some(id) => {
                let mut found = false;
                let mut j: usize = 0;
                while j < valid_ids.len()
                    invariant
                        j <= valid_ids@.len(),
                        found == exists|m: int| 0 <= m < j && valid_ids@[m] == id,
                    decreases valid_ids@.len() - j,
                {
                    if valid_ids[j] == id {
                        found = true;
                    }
                    j = j + 1;
                }
                if !found {
                    proof {
                        assert(!valid_ids@.contains(id));
                        assert(!tag_ids_ok(tags@, valid_ids@)) by {
                            let kk = i as int;
                            assert(tags@[kk] == tags@[i as int]);
                        }
                    }
                    return Err(bad_request("invalid tag id"));
                }
                proof {
                    let m = choose|m: int| 0 <= m < j && valid_ids@[m] == id;
                    assert(valid_ids@.contains(id));
                }
                ids.push(id);
                i = i + 1;
                proof {
                    assert forall|k: int| 0 <= k < tags@.take(i as int).len() implies ({
                        let p = parse_i32_spec(match #[trigger] tags@.take(i as int)[k] { Some(t) => t@, None => Seq::empty() });
                        p is Some && valid_ids@.contains(p->Some_0)
                    }) by {
                        if k < i - 1 {
                            assert(tags@.take(i as int)[k] == tags@.take(i - 1)[k]);
                        }
                    }
                }
            },
        }
    }
    proof {
        assert(tags@.take(i as int) =~= tags@);
    }
    Ok(ids)
}

/// A stored tag, as a file's tag list shows it.
#[derive(Debug, Clone)]
pub struct TagRow {
    pub id: i32,
    pub name: String,
}

/// A tag as attached to a file: its id as text and its name.
#[derive(Debug, Clone, PartialEq, Eq)]
pub struct FileTag {
    pub row_id: String,
    pub display_value: String,
}

/// The index of the first loaded tag with this id.
pub open spec fn tag_index(tags: Seq<TagRow>, id: i32) -> Option<int>
    decreases tags.len(),
{
    if tags.len() == 0 {
        None
    } else {
        match tag_index(tags.drop_last(), id) {
            Some(i) => Some(i),
            None => if tags.last().id == id {
                Some(tags.len() - 1)
            } else {
                None
            },
        }
    }
}

proof fn lemma_tag_index(tags: Seq<TagRow>, id: i32)
    ensures
        match tag_index(tags, id) {
            Some(i) => 0 <= i < tags.len() && tags[i].id == id && forall|j: int|
                0 <= j < i ==> #[trigger] tags[j].id != id,
            None => forall|j: int| 0 <= j < tags.len() ==> #[trigger] tags[j].id != id,
        },
    decreases tags.len(),
{
    if tags.len() > 0 {
        lemma_tag_index(tags.drop_last(), id);
        assert forall|j: int| 0 <= j < tags.len() - 1 implies tags.drop_last()[j] == #[trigger] tags[j] by {}
    }
}

/// The tags of a file: for each of its tag links in order, the loaded tag it
/// refers to, skipping links to tags that are gone.
pub fn file_tags(link_tag_ids: &[i32], tags: &[TagRow]) -> (out: Vec<FileTag>)
    ensures
        out@.len() == link_tag_ids@.filter(|t: i32| tag_index(tags@, t) is Some).len(),
        forall|k: int|
            0 <= k < out@.len() ==> ({
                let row = tags@[tag_index(tags@, link_tag_ids@.filter(|t: i32| tag_index(tags@, t) is Some)[k])->Some_0];
                (#[trigger] out@[k]).row_id@ == signed_decimal(row.id as int) && out@[k].display_value == row.name
            }),
{
    let ghost keep = |t: i32| tag_index(tags@, t) is Some;
    let mut out: Vec<FileTag> = Vec::new();
    let mut i: usize = 0;
    proof {
        reveal(Seq::filter);
    }
    while i < link_tag_ids.len()
        invariant
            i <= link_tag_ids@.len(),
            keep == (|t: i32| tag_index(tags@, t) is Some),
            out@.len() == link_tag_ids@.take(i as int).filter(keep).len(),
            forall|k: int|
                0 <= k < out@.len() ==> ({
                    let row = tags@[tag_index(tags@, link_tag_ids@.take(i as int).filter(keep)[k])->Some_0];
                    (#[trigger] out@[k]).row_id@ == signed_decimal(row.id as int) && out@[k].display_value
                        == row.name
                }),
        decreases link_tag_ids@.len() - i,
    {
        let ghost before = link_tag_ids@.take(i as int).filter(keep);
        proof {
            let t = link_tag_ids@.take(i + 1);
            assert(t.drop_last() =~= link_tag_ids@.take(i as int));
            reveal(Seq::filter);
            lemma_tag_index(tags@, link_tag_ids@[i as int]);
        }
        let id = link_tag_ids[i];
        let mut j: usize = 0;
        let mut hit: Option<usize> = None;
        while j < tags.len()
            invariant_except_break
                hit is None,
            invariant
                j <= tags@.len(),
                forall|m: int| 0 <= m < j ==> #[trigger] tags@[m].id != id,
            ensures
                match hit {
                    Some(h) => h < tags@.len() && tags@[h as int].id == id && forall|m: int|
                        0 <= m < h ==> #[trigger] tags@[m].id != id,
                    None => forall|m: int| 0 <= m < tags@.len() ==> #[trigger] tags@[m].id != id,
                },
            decreases tags@.len() - j,
        {
            if tags[j].id == id {
                hit = Some(j);
                break;
            }
            j = j + 1;
        }
        match hit {
            Some(h) => {
                proof {
                    let f = tag_index(tags@, id)->Some_0;
                    if f < h {
                        assert(tags@[f].id != id);
                    }
                    if f > h {
                        assert(tags@[h as int].id != id);
                    }
                }
                let mut row_id = String::new();
                crate::text::push_signed_decimal(&mut row_id, tags[h].id as i64);
                let entry = FileTag { row_id, display_value: tags[h].name.clone() };
                out.push(entry);
                proof {
                    let fl = link_tag_ids@.take(i + 1).filter(keep);
                    assert(fl =~= before.push(id));
                    assert forall|k: int| 0 <= k < out@.len() implies ({
                        let row = tags@[tag_index(tags@, fl[k])->Some_0];
                        (#[trigger] out@[k]).row_id@ == signed_decimal(row.id as int) && out@[k].display_value
                            == row.name
                    }) by {
                        if k < before.len() {
                            assert(fl[k] == before[k]);
                        }
                    }
                }
            },
            None => {
                proof {
                    assert(link_tag_ids@.take(i + 1).filter(keep) =~= before);
                }
            },
        }
        i = i + 1;
    }
    proof {
        assert(link_tag_ids@.take(i as int) =~= link_tag_ids@);
    }
    out
}

/// What a record shows of a file: its size, modification time and last
/// modifier.
#[derive(Debug, Clone, PartialEq, Eq)]
pub struct FileInfo {
    pub size: i64,
    pub mtime: i64,
    pub modifier: String,
}

/// A file's details from its parent directory's entries: none for the root
/// or an empty path, when the parent could not be read, when no entry has
/// the name, or when the entry is a directory.
pub fn file_info_of(path: &str, parent_entries: Option<&[DirEntry]>, name: &str) -> (r: Option<FileInfo>)
    ensures
        (path@ == seq!['/'] || path@.len() == 0 || parent_entries is None) ==> r is None,
        ({
            &&& !(path@ == seq!['/'] || path@.len() == 0)
            &&& parent_entries matches Some(d)
        }) ==> match first_named(parent_entries->Some_0@, name@) {
            None => r is None,
            Some(i) => {
                let e = parent_entries->Some_0@[i];
                if is_dir_mode_spec(e.mode) {
                    r is None
                } else {
                    r == Some(FileInfo { size: e.size, mtime: e.mtime, modifier: e.modifier })
                }
            },
        },
{
    proof {
        reveal_strlit("/");
        assert("/"@ =~= seq!['/']);
    }
    if path.is_empty() || str_eq(path, "/") {
        return None;
    }
    match parent_entries {
        None => None,
        Some(d) => match find_named(d, name) {
            None => None,
            Some(i) => {
                let e = &d[i];
                if is_dir_mode(e.mode) {
                    None
                } else {
                    Some(FileInfo { size: e.size, mtime: e.mtime, modifier: e.modifier.clone() })
                }
            },
        },
    }
}

} // verus!
