//! The pure parts of single-file operations: the paths a file operation
//! derives, the URLs a download hands out, and the checks an upload makes
//! before it touches storage.

use vstd::prelude::*;
use crate::error::{AppError, bad_request, is_bad_request};
use crate::dirent::DirEntry;
use crate::repo::{build_op_url, strip_trailing};
use crate::split::{trimmed_pieces, trimmed_pieces_exec};
use crate::text::{
    str_eq, chars_of, decimal, last_index, last_index_exec, owned, push_char, push_chars, push_decimal,
    push_str, slice_range,
};

verus! {

/// Parsed upload data, extracted from the multipart request.
pub struct UploadedFile {
    pub file_name: String,
    pub file_data: Vec<u8>,
    pub parent_dir: String,
    pub replace: bool,
}

/// The last component of `path`, or `default` when it has no `/`.
pub open spec fn path_leaf_spec(path: Seq<char>, default: Seq<char>) -> Seq<char> {
    match last_index(path, '/') {
        Some(i) => path.skip(i + 1),
        None => default,
    }
}

/// What follows the last `/` of `path` (`rsplit_once('/')`), or `default`.
pub fn path_leaf(path: &str, default: &str) -> (out: String)
    ensures
        out@ == path_leaf_spec(path@, default@),
{
    let v = chars_of(path);
    match last_index_exec(v.as_slice(), '/') {
        Some(i) => {
            let n = v.len();
            let leaf = slice_range(v.as_slice(), i + 1, n);
            let mut out = String::new();
            push_chars(&mut out, leaf.as_slice());
            proof {
                assert(leaf@ =~= v@.skip(i + 1));
            }
            out
        },
        None => owned(default),
    }
}

/// The path of `name` inside `parent`: `/name` under the root, else
/// `parent/name`.
pub open spec fn child_path_spec(parent: Seq<char>, name: Seq<char>) -> Seq<char> {
    if parent == seq!['/'] {
        seq!['/'] + name
    } else {
        parent + seq!['/'] + name
    }
}

/// The path of a child of a directory.
pub fn child_path(parent: &str, name: &str) -> (p: String)
    ensures
        p@ == child_path_spec(parent@, name@),
{
    let v = chars_of(parent);
    let mut p = String::new();
    if v.len() == 1 && v[0] == '/' {
        push_char(&mut p, '/');
        push_str(&mut p, name);
        proof {
            assert(v@ =~= seq!['/']);
        }
    } else {
        push_str(&mut p, parent);
        push_char(&mut p, '/');
        push_str(&mut p, name);
        proof {
            if parent@ == seq!['/'] {
                assert(v@.len() == 1 && v@[0] == '/');
            }
        }
    }
    p
}

/// The path an uploaded file is indexed under: the name appended to the
/// parent, with a `/` between unless the parent already ends in one.
pub open spec fn upload_index_path_spec(parent: Seq<char>, name: Seq<char>) -> Seq<char> {
    if parent.len() > 0 && parent.last() == '/' {
        parent + name
    } else {
        parent + seq!['/'] + name
    }
}

/// The path an uploaded file is indexed under.
pub fn upload_index_path(parent: &str, name: &str) -> (p: String)
    ensures
        p@ == upload_index_path_spec(parent@, name@),
{
    let v = chars_of(parent);
    let mut p = owned(parent);
    if !(v.len() > 0 && v[v.len() - 1] == '/') {
        push_char(&mut p, '/');
    }
    push_str(&mut p, name);
    p
}

/// An upload must name its file.
pub fn check_upload_name(file_name: &str) -> (r: Result<(), AppError>)
    ensures
        r is Ok <==> file_name@.len() > 0,
        r matches Err(e) ==> is_bad_request(e, "no file provided"@),
{
    if file_name.is_empty() {
        return Err(bad_request("no file provided"));
    }
    Ok(())
}

/// How much an upload changes the library's size: the new length, less
/// what a replaced file held.
pub fn upload_size_delta(new_len: usize, old_size: i64) -> (d: i64)
    requires
        new_len <= i64::MAX,
        i64::MIN <= new_len - old_size <= i64::MAX,
    ensures
        d == new_len - old_size,
{
    (new_len as i64) - old_size
}

/// The identity every directory object is addressed by when it is empty;
/// a path resolving to it is a directory, not a file.
pub open spec fn empty_dir_id() -> Seq<char> {
    Seq::new(40, |i: int| '0')
}

/// Whether a resolved identity is the empty directory's.
pub fn is_empty_dir_id(id: &str) -> (b: bool)
    ensures
        b == (id@ == empty_dir_id()),
{
    let v = chars_of(id);
    if v.len() != 40 {
        proof {
            assert(v@.len() != empty_dir_id().len());
        }
        return false;
    }
    let mut i: usize = 0;
    while i < 40
        invariant
            i <= 40,
            v@.len() == 40,
            v@ == id@,
            forall|k: int| 0 <= k < i ==> #[trigger] v@[k] == '0',
        decreases 40 - i,
    {
        if v[i] != '0' {
            proof {
                assert(empty_dir_id()[i as int] == '0');
                assert(v@[i as int] != empty_dir_id()[i as int]);
                assert(id@ != empty_dir_id());
            }
            return false;
        }
        i = i + 1;
    }
    proof {
        assert(v@ =~= empty_dir_id());
    }
    true
}

/// The URL under which a capability path is served. With a `Host` header
/// the request's host is used (its own port when it names one, the
/// server's port otherwise); without one, the configured site URL.
pub open spec fn served_url_spec(
    scheme: Seq<char>,
    port: u16,
    site_url: Seq<char>,
    host: Option<Seq<char>>,
    tail: Seq<char>,
) -> Seq<char> {
    match host {
        Some(h) => if h.contains(':') {
            scheme + "://"@ + h + seq!['/'] + tail
        } else {
            scheme + "://"@ + h + seq![':'] + decimal(port as nat) + seq!['/'] + tail
        },
        None => strip_trailing(site_url, '/') + seq!['/'] + tail,
    }
}

fn host_has_port(h: &str) -> (b: bool)
    ensures
        b == h@.contains(':'),
{
    let v = chars_of(h);
    let mut i: usize = 0;
    while i < v.len()
        invariant
            i <= v@.len(),
            v@ == h@,
            forall|k: int| 0 <= k < i ==> #[trigger] v@[k] != ':',
        decreases v@.len() - i,
    {
        if v[i] == ':' {
            proof {
                assert(h@[i as int] == ':');
            }
            return true;
        }
        i = i + 1;
    }
    false
}

fn host_prefix(scheme: &str, port: u16, h: &str) -> (s: String)
    ensures
        s@ == if h@.contains(':') {
            scheme@ + "://"@ + h@
        } else {
            scheme@ + "://"@ + h@ + seq![':'] + decimal(port as nat)
        },
{
    let mut s = owned(scheme);
    push_str(&mut s, "://");
    push_str(&mut s, h);
    if !host_has_port(h) {
        push_char(&mut s, ':');
        push_decimal(&mut s, port as u64);
    }
    s
}

/// The download URL of a file behind a download token.
pub fn build_download_url(scheme: &str, port: u16, site_url: &str, host_header: Option<&str>, token: &str) -> (u: String)
    ensures
        u@ == served_url_spec(
            scheme@,
            port,
            site_url@,
            match host_header {
                Some(h) => Some(h@),
                None => None,
            },
            "download-api/"@ + token@,
        ),
{
    match host_header {
        Some(h) => {
            let mut u = host_prefix(scheme, port, h);
            push_str(&mut u, "/download-api/");
            push_str(&mut u, token);
            proof {
                assert(u@ =~= served_url_spec(scheme@, port, site_url@, Some(h@), "download-api/"@ + token@)) by {
                    reveal_strlit("/download-api/");
                    reveal_strlit("download-api/");
                }
            }
            u
        },
        None => {
            let u = build_op_url(site_url, "download-api", token);
            proof {
                reveal_strlit("/");
                reveal_strlit("download-api");
                reveal_strlit("download-api/");
                assert(u@ =~= served_url_spec(scheme@, port, site_url@, None, "download-api/"@ + token@));
            }
            u
        },
    }
}

/// The URL of one block of a file behind a block-download token.
pub fn build_block_download_url(
    scheme: &str,
    port: u16,
    site_url: &str,
    host_header: Option<&str>,
    token: &str,
    file_id: &str,
    block_id: &str,
) -> (u: String)
    ensures
        u@ == served_url_spec(
            scheme@,
            port,
            site_url@,
            match host_header {
                Some(h) => Some(h@),
                None => None,
            },
            "blks/"@ + token@ + seq!['/'] + file_id@ + seq!['/'] + block_id@,
        ),
{
    let mut u = match host_header {
        Some(h) => {
            let mut u = host_prefix(scheme, port, h);
            push_str(&mut u, "/blks/");
            push_str(&mut u, token);
            u
        },
        None => build_op_url(site_url, "blks", token),
    };
    push_char(&mut u, '/');
    push_str(&mut u, file_id);
    push_char(&mut u, '/');
    push_str(&mut u, block_id);
    proof {
        reveal_strlit("/");
        reveal_strlit("blks");
        reveal_strlit("blks/");
        reveal_strlit("/blks/");
        match host_header {
            Some(h) => {
                assert(u@ =~= served_url_spec(scheme@, port, site_url@, Some(h@), "blks/"@ + token@
                    + seq!['/'] + file_id@ + seq!['/'] + block_id@));
            },
            None => {
                assert(u@ =~= served_url_spec(scheme@, port, site_url@, None, "blks/"@ + token@
                    + seq!['/'] + file_id@ + seq!['/'] + block_id@));
            },
        }
    }
    u
}

// ─── Locks ───────────────────────────────────────────────────────────────

/// What a lock request asks for.
#[derive(Debug, Clone, Copy, PartialEq, Eq, Structural)]
pub enum LockOperation {
    Lock,
    Unlock,
}

/// Read a lock request's operation: `lock` or `unlock`; anything else is
/// refused with `unknown operation: <op>`.
pub fn parse_lock_operation(operation: &str) -> (r: Result<LockOperation, AppError>)
    ensures
        operation@ == "lock"@ ==> r == Ok::<LockOperation, AppError>(LockOperation::Lock),
        operation@ == "unlock"@ ==> r == Ok::<LockOperation, AppError>(LockOperation::Unlock),
        operation@ != "lock"@ && operation@ != "unlock"@ ==> (r matches Err(e) && is_bad_request(
            e,
            "unknown operation: "@ + operation@,
        )),
{
    proof {
        reveal_strlit("lock");
        reveal_strlit("unlock");
        assert("lock"@[0] != "unlock"@[0]);
    }
    if str_eq(operation, "lock") {
        Ok(LockOperation::Lock)
    } else if str_eq(operation, "unlock") {
        Ok(LockOperation::Unlock)
    } else {
        let mut m = owned("unknown operation: ");
        push_str(&mut m, operation);
        Err(AppError::BadRequest(m))
    }
}

/// The event name a lock change is announced under.
pub fn lock_event_name(op: LockOperation) -> (s: &'static str)
    ensures
        s@ == (if op == LockOperation::Lock { "locked"@ } else { "unlocked"@ }),
{
    match op {
        LockOperation::Lock => "locked",
        LockOperation::Unlock => "unlocked",
    }
}

/// Whether a sync token (its library and user, when it exists) is one for
/// this library.
pub open spec fn token_for_repo(token: Option<(&str, i32)>, repo_id: Seq<char>) -> bool {
    token matches Some((r, _)) && r@ == repo_id
}

/// The locked files a sync client is told about, with `1` for those its own
/// user holds, and the library's lock timestamp (`0` when none is stored):
/// nothing at all, and timestamp `0`, for a token of another library or an
/// unknown one.
pub fn locked_files_view(
    token: Option<(&str, i32)>,
    repo_id: &str,
    locked: &[(String, i32)],
    lock_stamp: Option<i64>,
) -> (r: (Vec<(String, i32)>, i64))
    ensures
        !token_for_repo(token, repo_id@) ==> r.0@.len() == 0 && r.1 == 0,
        token_for_repo(token, repo_id@) ==> {
            &&& r.1 == (match lock_stamp {
                Some(t) => t,
                None => 0,
            })
            &&& r.0@.len() == locked@.len()
            &&& forall|k: int|
                0 <= k < locked@.len() ==> (#[trigger] r.0@[k]).0 == locked@[k].0 && r.0@[k].1 == (if locked@[k].1
                    == token->Some_0.1 {
                    1i32
                } else {
                    0i32
                })
        },
{
    let user = match token {
        Some((r, u)) => if str_eq(r, repo_id) {
            u
        } else {
            return (Vec::new(), 0);
        },
        None => return (Vec::new(), 0),
    };
    let stamp = match lock_stamp {
        Some(t) => t,
        None => 0,
    };
    let mut files: Vec<(String, i32)> = Vec::new();
    let mut i: usize = 0;
    while i < locked.len()
        invariant
            i <= locked@.len(),
            token_for_repo(token, repo_id@),
            user == token->Some_0.1,
            files@.len() == i,
            forall|k: int|
                0 <= k < i ==> (#[trigger] files@[k]).0 == locked@[k].0 && files@[k].1 == (if locked@[k].1
                    == user {
                    1i32
                } else {
                    0i32
                }),
        decreases locked@.len() - i,
    {
        let by_me: i32 = if locked[i].1 == user { 1 } else { 0 };
        files.push((locked[i].0.clone(), by_me));
        i = i + 1;
    }
    (files, stamp)
}

// ─── New empty files ─────────────────────────────────────────────────────

/// Where an empty file is created: its name (after the last `/`, the whole
/// path without one) and its parent (`/` for a top-level path).
pub open spec fn new_file_location(path: Seq<char>) -> (Seq<char>, Seq<char>) {
    match last_index(path, '/') {
        Some(i) => (path.skip(i + 1), if i == 0 { seq!['/'] } else { path.take(i) }),
        None => (path, seq!['/']),
    }
}

/// The name and parent of a new empty file; `invalid path` when the name
/// is empty.
pub fn empty_file_location(path: &str) -> (r: Result<(String, String), AppError>)
    ensures
        new_file_location(path@).0.len() == 0 ==> (r matches Err(e) && is_bad_request(e, "invalid path"@)),
        new_file_location(path@).0.len() > 0 ==> (r matches Ok((n, p)) && n@ == new_file_location(path@).0
            && p@ == new_file_location(path@).1),
{
    let v = chars_of(path);
    let (name, parent) = match last_index_exec(v.as_slice(), '/') {
        Some(i) => {
            let n = v.len();
            let tail = slice_range(v.as_slice(), i + 1, n);
            let mut name = String::new();
            push_chars(&mut name, tail.as_slice());
            let mut parent = String::new();
            if i == 0 {
                push_char(&mut parent, '/');
            } else {
                let head = slice_range(v.as_slice(), 0, i);
                push_chars(&mut parent, head.as_slice());
                proof {
                    assert(head@ =~= v@.take(i as int));
                }
            }
            proof {
                assert(tail@ =~= v@.skip(i + 1));
                assert(parent@ =~= new_file_location(path@).1);
            }
            (name, parent)
        },
        None => {
            let mut parent = String::new();
            push_char(&mut parent, '/');
            proof {
                assert(parent@ =~= seq!['/']);
            }
            (owned(path), parent)
        },
    };
    if name.as_str().is_empty() {
        return Err(bad_request("invalid path"));
    }
    Ok((name, parent))
}

/// The block ids a resumable upload asks about: the comma-separated list,
/// each id trimmed and empty ones dropped; none without a list.
pub fn uploaded_block_ids(blockids: Option<&str>) -> (ids: Vec<String>)
    ensures
        match blockids {
            Some(b) => ids@.map_values(|n: String| n@) == trimmed_pieces(b@, ','),
            None => ids@.len() == 0,
        },
{
    match blockids {
        Some(b) => trimmed_pieces_exec(b, ','),
        None => Vec::new(),
    }
}

/// How many answers are `true`.
pub open spec fn count_held(held: Seq<bool>) -> nat
    decreases held.len(),
{
    if held.len() == 0 {
        0
    } else {
        count_held(held.drop_last()) + if held.last() {
            1nat
        } else {
            0nat
        }
    }
}

/// How many bytes' worth of blocks a resumable upload already has: the
/// number of asked-about blocks the store holds (`held[i]` answers for the
/// `i`-th id of [`uploaded_block_ids`]).
pub fn uploaded_block_count(held: &[bool]) -> (n: i64)
    requires
        held@.len() <= i64::MAX,
    ensures
        n == count_held(held@),
{
    let mut n: i64 = 0;
    let mut i: usize = 0;
    while i < held.len()
        invariant
            i <= held@.len(),
            held@.len() <= i64::MAX,
            n == count_held(held@.take(i as int)),
            n <= i,
        decreases held@.len() - i,
    {
        proof {
            let t = held@.take(i + 1);
            assert(t.drop_last() =~= held@.take(i as int));
            assert(t.last() == held@[i as int]);
        }
        if held[i] {
            n = n + 1;
        }
        i = i + 1;
    }
    proof {
        assert(held@.take(i as int) =~= held@);
    }
    n
}

/// The detail view of a file.
#[derive(Debug, Clone, PartialEq, Eq)]
pub struct FileDetail {
    /// The file's content identity.
    pub id: String,
    pub name: String,
    pub size: i64,
    pub last_modified: i64,
    /// The modifier as recorded on the entry.
    pub last_modifier_name: String,
    /// The modifier's account address, or the recorded modifier when no
    /// account has that address.
    pub last_modifier_email: String,
}

/// The detail view of a file from its directory entry; `account_email` is
/// the address of the account the entry's modifier names, when there is one.
pub fn file_detail_of(fs_id: &str, entry: &DirEntry, account_email: Option<String>) -> (d: FileDetail)
    ensures
        d.id@ == fs_id@,
        d.name@ == entry.name@,
        d.size == entry.size,
        d.last_modified == entry.mtime,
        d.last_modifier_name@ == entry.modifier@,
        d.last_modifier_email@ == match account_email {
            Some(e) => e@,
            None => entry.modifier@,
        },
{
    let email = match account_email {
        Some(e) => e,
        None => owned(entry.modifier.as_str()),
    };
    FileDetail {
        id: owned(fs_id),
        name: owned(entry.name.as_str()),
        size: entry.size,
        last_modified: entry.mtime,
        last_modifier_name: owned(entry.modifier.as_str()),
        last_modifier_email: email,
    }
}

/// What a single-file operation did, for its commit description.
#[derive(Debug, Clone, Copy, PartialEq, Eq, Structural)]
pub enum FileEdit {
    Renamed,
    Deleted,
    Moved,
    CreatedEmpty,
}

/// The commit description of a single-file operation on `name`:
/// `Renamed <old name>`, `Deleted <name>`, `Moved <name>` or
/// `Created empty file <name>`.
pub open spec fn file_edit_description_spec(edit: FileEdit, name: Seq<char>) -> Seq<char> {
    match edit {
        FileEdit::Renamed => "Renamed "@ + name,
        FileEdit::Deleted => "Deleted "@ + name,
        FileEdit::Moved => "Moved "@ + name,
        FileEdit::CreatedEmpty => "Created empty file "@ + name,
    }
}

/// The commit description of a single-file operation.
pub fn file_edit_description(edit: FileEdit, name: &str) -> (s: String)
    ensures
        s@ == file_edit_description_spec(edit, name@),
{
    let mut s = match edit {
        FileEdit::Renamed => owned("Renamed "),
        FileEdit::Deleted => owned("Deleted "),
        FileEdit::Moved => owned("Moved "),
        FileEdit::CreatedEmpty => owned("Created empty file "),
    };
    push_str(&mut s, name);
    s
}

} // verus!
