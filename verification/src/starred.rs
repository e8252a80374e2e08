//! Starred items: what a star request must carry, how a starred path is
//! taken apart and shown, and the order of the starred list.

use vstd::prelude::*;
use crate::clock::{rfc3339_of, timestamp_to_iso};
use crate::error::{AppError, bad_request, is_bad_request};
use crate::order::{lemma_text_lt_irreflexive, lemma_text_lt_total, lemma_text_lt_transitive, text_less, text_lt};
use crate::repo::strip_trailing;
use crate::text::{chars_of, last_index, last_index_exec, owned, push_chars, slice_range};

verus! {

/// A starred file, as the legacy listing shows it.
#[derive(Debug, Clone, PartialEq, Eq)]
pub struct StarredFileEntry {
    pub repo_id: String,
    pub path: String,
    pub size: Option<i64>,
    pub last_modified: Option<i64>,
    pub is_dir: bool,
}

/// A star request must name a library and a path.
pub fn check_star_request(repo_id: &str, path: &str) -> (r: Result<(), AppError>)
    ensures
        r is Ok <==> (repo_id@.len() > 0 && path@.len() > 0),
        repo_id@.len() == 0 ==> (r matches Err(e) && is_bad_request(e, "repo_id invalid."@)),
        repo_id@.len() > 0 && path@.len() == 0 ==> (r matches Err(e) && is_bad_request(e, "path invalid."@)),
{
    if repo_id.is_empty() {
        return Err(bad_request("repo_id invalid."));
    }
    if path.is_empty() {
        return Err(bad_request("path invalid."));
    }
    Ok(())
}

fn trimmed_slashes(path: &str) -> (v: Vec<char>)
    ensures
        v@ == strip_trailing(path@, '/'),
{
    let v = chars_of(path);
    let mut end = v.len();
    proof {
        assert(v@.take(v@.len() as int) =~= v@);
    }
    while end > 0 && v[end - 1] == '/'
        invariant
            end <= v@.len(),
            strip_trailing(v@, '/') == strip_trailing(v@.take(end as int), '/'),
        decreases end,
    {
        proof {
            assert(v@.take(end as int).drop_last() =~= v@.take(end - 1));
        }
        end = end - 1;
    }
    proof {
        assert(strip_trailing(v@.take(end as int), '/') == v@.take(end as int));
        assert(v@.subrange(0, end as int) =~= v@.take(end as int));
    }
    slice_range(v.as_slice(), 0, end)
}

/// Where a starred path lives: its parent directory (`/` for a top-level
/// item) and its name, trailing slashes ignored; none when no `/` is left.
pub open spec fn starred_location_spec(path: Seq<char>) -> Option<(Seq<char>, Seq<char>)> {
    let p = strip_trailing(path, '/');
    match last_index(p, '/') {
        Some(i) => Some((if i == 0 { seq!['/'] } else { p.take(i) }, p.skip(i + 1))),
        None => None,
    }
}

/// The parent directory and name of a starred item.
pub fn starred_location(path: &str) -> (r: Option<(String, String)>)
    ensures
        match r {
            Some((parent, name)) => starred_location_spec(path@) == Some((parent@, name@)),
            None => starred_location_spec(path@) is None,
        },
{
    let p = trimmed_slashes(path);
    match last_index_exec(p.as_slice(), '/') {
        Some(i) => {
            let mut parent = String::new();
            if i == 0 {
                parent = owned("/");
                proof {
                    reveal_strlit("/");
                    assert(parent@ =~= seq!['/']);
                }
            } else {
                let head = slice_range(p.as_slice(), 0, i);
                push_chars(&mut parent, head.as_slice());
                proof {
                    assert(parent@ =~= p@.take(i as int));
                }
            }
            let n = p.len();
            let tail = slice_range(p.as_slice(), i + 1, n);
            let mut name = String::new();
            push_chars(&mut name, tail.as_slice());
            proof {
                assert(name@ =~= p@.skip(i + 1));
            }
            Some((parent, name))
        },
        None => None,
    }
}

/// The name a starred item is shown under: the library's name for the
/// library itself, otherwise the last component of its path.
pub open spec fn starred_obj_name_spec(path: Seq<char>, repo_name: Seq<char>) -> Seq<char> {
    if path == seq!['/'] {
        repo_name
    } else {
        let p = strip_trailing(path, '/');
        match last_index(p, '/') {
            Some(i) => p.skip(i + 1),
            None => Seq::empty(),
        }
    }
}

/// The name a starred item is shown under.
pub fn starred_obj_name(path: &str, repo_name: &str) -> (n: String)
    ensures
        n@ == starred_obj_name_spec(path@, repo_name@),
{
    let v = chars_of(path);
    if v.len() == 1 && v[0] == '/' {
        proof {
            assert(path@ =~= seq!['/']);
        }
        return owned(repo_name);
    }
    proof {
        if path@ == seq!['/'] {
            assert(v@.len() == 1 && v@[0] == '/');
        }
    }
    let p = trimmed_slashes(path);
    let mut out = String::new();
    match last_index_exec(p.as_slice(), '/') {
        Some(i) => {
            let n = p.len();
            let tail = slice_range(p.as_slice(), i + 1, n);
            push_chars(&mut out, tail.as_slice());
            proof {
                assert(out@ =~= p@.skip(i + 1));
            }
        },
        None => {},
    }
    out
}

/// Which group of the starred list an item belongs to.
#[derive(Debug, Clone, Copy, PartialEq, Eq)]
pub enum StarredKind {
    /// A whole library (the path `/`).
    Library,
    Folder,
    File,
}

/// The group of a starred item.
pub open spec fn starred_kind_spec(path: Seq<char>, is_dir: bool) -> StarredKind {
    if path == seq!['/'] {
        StarredKind::Library
    } else if is_dir {
        StarredKind::Folder
    } else {
        StarredKind::File
    }
}

/// The group of a starred item.
pub fn starred_kind(path: &str, is_dir: bool) -> (k: StarredKind)
    ensures
        k == starred_kind_spec(path@, is_dir),
{
    let v = chars_of(path);
    proof {
        if path@ == seq!['/'] {
            assert(v@.len() == 1 && v@[0] == '/');
        }
        if v@.len() == 1 && v@[0] == '/' {
            assert(path@ =~= seq!['/']);
        }
    }
    if v.len() == 1 && v[0] == '/' {
        StarredKind::Library
    } else if is_dir {
        StarredKind::Folder
    } else {
        StarredKind::File
    }
}

/// The rank of a group: libraries, then folders, then files.
pub open spec fn kind_rank(k: StarredKind) -> int {
    match k {
        StarredKind::Library => 0,
        StarredKind::Folder => 1,
        StarredKind::File => 2,
    }
}

/// One entry of the starred list, as it is listed.
#[derive(Debug, Clone, PartialEq, Eq)]
pub struct StarredListing {
    pub kind: StarredKind,
    /// The modification time, as RFC 3339 text.
    pub mtime: String,
    /// Where the entry stands in the list as it was read.
    pub position: usize,
}

/// Whether `a` is listed before `b`: by group, then newest first.
pub open spec fn starred_before(a: StarredListing, b: StarredListing) -> bool {
    kind_rank(a.kind) < kind_rank(b.kind) || (a.kind == b.kind && text_lt(b.mtime@, a.mtime@))
}

/// Whether two entries share a place in the order.
pub open spec fn starred_same_rank(a: StarredListing, b: StarredListing) -> bool {
    a.kind == b.kind && a.mtime@ == b.mtime@
}

proof fn lemma_starred_before(a: StarredListing, b: StarredListing, c: StarredListing)
    ensures
        !starred_before(a, a),
        starred_before(a, b) || starred_before(b, a) || starred_same_rank(a, b),
        !(starred_before(a, b) && starred_before(b, a)),
        starred_before(a, b) && starred_before(b, c) ==> starred_before(a, c),
        starred_same_rank(a, b) ==> !starred_before(a, b),
{
    lemma_text_lt_irreflexive(a.mtime@);
    lemma_text_lt_total(a.mtime@, b.mtime@);
    if starred_before(a, b) && starred_before(b, c) && a.kind == c.kind {
        lemma_text_lt_transitive(c.mtime@, b.mtime@, a.mtime@);
    }
}

fn starred_before_exec(a: &StarredListing, b: &StarredListing) -> (r: bool)
    ensures
        r == starred_before(*a, *b),
{
    let ra: u8 = match a.kind {
        StarredKind::Library => 0,
        StarredKind::Folder => 1,
        StarredKind::File => 2,
    };
    let rb: u8 = match b.kind {
        StarredKind::Library => 0,
        StarredKind::Folder => 1,
        StarredKind::File => 2,
    };
    if ra != rb {
        return ra < rb;
    }
    let am = chars_of(a.mtime.as_str());
    let bm = chars_of(b.mtime.as_str());
    text_less(bm.as_slice(), am.as_slice())
}

/// `out` lists `input` in order, equal-ranked entries keeping their input
/// order; `p[k]` is where `out[k]` came from.
pub open spec fn stable_starred(input: Seq<StarredListing>, out: Seq<StarredListing>, p: Seq<int>) -> bool {
    &&& out.len() == input.len()
    &&& p.len() == input.len()
    &&& forall|k: int| 0 <= k < out.len() ==> 0 <= #[trigger] p[k] < input.len() && out[k] == input[p[k]]
    &&& forall|k: int, l: int| 0 <= k < l < out.len() ==> #[trigger] p[k] != #[trigger] p[l]
    &&& forall|k: int, l: int| 0 <= k < l < out.len() ==> !starred_before(#[trigger] out[l], #[trigger] out[k])
    &&& forall|k: int, l: int|
        0 <= k < l < out.len() && starred_same_rank(#[trigger] out[k], #[trigger] out[l]) ==> p[k] < p[l]
}

/// A stable starred list holds the libraries first and the files last, and
/// within one kind the modification times never increase: newest first.
pub proof fn starred_lists_group_by_kind_newest_first(
    input: Seq<StarredListing>,
    out: Seq<StarredListing>,
    p: Seq<int>,
)
    requires
        stable_starred(input, out, p),
    ensures
        forall|k: int, l: int|
            0 <= k < l < out.len() && (#[trigger] out[l]).kind == StarredKind::Library ==> (
            #[trigger] out[k]).kind == StarredKind::Library,
        forall|k: int, l: int|
            0 <= k < l < out.len() && (#[trigger] out[k]).kind == StarredKind::File ==> (
            #[trigger] out[l]).kind == StarredKind::File,
        forall|k: int, l: int|
            0 <= k < l < out.len() && (#[trigger] out[k]).kind == (#[trigger] out[l]).kind ==> !text_lt(
                out[k].mtime@,
                out[l].mtime@,
            ),
{
    assert forall|k: int, l: int|
        0 <= k < l < out.len() && (#[trigger] out[l]).kind == StarredKind::Library implies (
        #[trigger] out[k]).kind == StarredKind::Library by {
        assert(!starred_before(out[l], out[k]));
    }
    assert forall|k: int, l: int|
        0 <= k < l < out.len() && (#[trigger] out[k]).kind == StarredKind::File implies (
        #[trigger] out[l]).kind == StarredKind::File by {
        assert(!starred_before(out[l], out[k]));
    }
    assert forall|k: int, l: int|
        0 <= k < l < out.len() && (#[trigger] out[k]).kind == (#[trigger] out[l]).kind implies !text_lt(
            out[k].mtime@,
            out[l].mtime@,
        ) by {
        assert(!starred_before(out[l], out[k]));
    }
}

/// Put the starred list in order: libraries, then folders, then files, each
/// group newest first, entries of equal rank in the order they were read.
pub fn order_starred(items: &[StarredListing]) -> (out: Vec<StarredListing>)
    ensures
        exists|p: Seq<int>| stable_starred(items@, out@, p),
        forall|k: int, l: int|
            0 <= k < l < out@.len() && (#[trigger] out@[l]).kind == StarredKind::Library ==> (
            #[trigger] out@[k]).kind == StarredKind::Library,
        forall|k: int, l: int|
            0 <= k < l < out@.len() && (#[trigger] out@[k]).kind == StarredKind::File ==> (
            #[trigger] out@[l]).kind == StarredKind::File,
        forall|k: int, l: int|
            0 <= k < l < out@.len() && (#[trigger] out@[k]).kind == (#[trigger] out@[l]).kind ==> !text_lt(
                out@[k].mtime@,
                out@[l].mtime@,
            ),
{
    let mut out: Vec<StarredListing> = Vec::new();
    let ghost mut p: Seq<int> = Seq::empty();
    let mut i: usize = 0;
    while i < items.len()
        invariant
            i <= items@.len(),
            stable_starred(items@.take(i as int), out@, p),
        decreases items@.len() - i,
    {
        let ghost input = items@.take(i as int);
        let x = StarredListing { kind: items[i].kind, mtime: items[i].mtime.clone(), position: items[i].position };
        let mut j: usize = 0;
        while j < out.len() && !starred_before_exec(&x, &out[j])
            invariant
                j <= out@.len(),
                x == items@[i as int],
                forall|k: int| 0 <= k < j ==> !starred_before(x, #[trigger] out@[k]),
            decreases out@.len() - j,
        {
            j = j + 1;
        }
        let ghost old_out = out@;
        let ghost old_p = p;
        out.insert(j, x);
        proof {
            p = old_p.insert(j as int, i as int);
            let input2 = items@.take(i + 1);
            assert forall|k: int| 0 <= k < input.len() implies #[trigger] input2[k] == input[k] by {}
            assert(input2[i as int] == items@[i as int]);
            assert forall|k: int| 0 <= k < out@.len() implies 0 <= #[trigger] p[k] < input2.len()
                && out@[k] == input2[p[k]] by {
                if k < j {
                    assert(out@[k] == old_out[k]);
                    assert(p[k] == old_p[k]);
                } else if k > j {
                    assert(out@[k] == old_out[k - 1]);
                    assert(p[k] == old_p[k - 1]);
                }
            }
            assert forall|k: int, l: int| 0 <= k < l < out@.len() implies #[trigger] p[k]
                != #[trigger] p[l] by {
                let ok = if k < j { k } else { k - 1 };
                let ol = if l < j { l } else { l - 1 };
                if k != j && l != j {
                    assert(p[k] == old_p[ok]);
                    assert(p[l] == old_p[ol]);
                } else if k == j {
                    assert(p[l] == old_p[ol]);
                } else {
                    assert(p[k] == old_p[ok]);
                }
            }
            assert forall|k: int, l: int| 0 <= k < l < out@.len() implies !starred_before(
                #[trigger] out@[l],
                #[trigger] out@[k],
            ) && (starred_same_rank(out@[k], out@[l]) ==> p[k] < p[l]) by {
                let ok = if k < j { k } else { k - 1 };
                let ol = if l < j { l } else { l - 1 };
                if k != j && l != j {
                    assert(out@[k] == old_out[ok]);
                    assert(out@[l] == old_out[ol]);
                    assert(p[k] == old_p[ok]);
                    assert(p[l] == old_p[ol]);
                    if ok == ol {
                        assert(false);
                    }
                } else if k == j {
                    assert(out@[l] == old_out[ol]);
                    assert(p[l] == old_p[ol]);
                    assert(starred_before(x, old_out[j as int]));
                    lemma_starred_before(x, old_out[j as int], old_out[ol]);
                    lemma_starred_before(old_out[ol], x, old_out[j as int]);
                    lemma_starred_before(old_out[ol], old_out[j as int], x);
                    if ol > j {
                        assert(!starred_before(old_out[ol], old_out[j as int]));
                    }
                    lemma_starred_before(old_out[j as int], old_out[ol], x);
                    assert(starred_before(x, old_out[ol]));
                    lemma_starred_before(x, old_out[ol], x);
                } else {
                    assert(out@[k] == old_out[ok]);
                    assert(p[k] == old_p[ok]);
                    assert(!starred_before(x, old_out[ok]));
                }
            }
        }
        i = i + 1;
    }
    proof {
        assert(items@.take(i as int) =~= items@);
        starred_lists_group_by_kind_newest_first(items@, out@, p);
    }
    out
}

/// A starred item as the starred list shows it.
#[derive(Debug, Clone, PartialEq, Eq)]
pub struct StarredItem {
    pub repo_id: String,
    pub repo_name: String,
    pub repo_encrypted: bool,
    pub is_dir: bool,
    pub path: String,
    pub obj_name: String,
    /// The modification time in RFC 3339.
    pub mtime: String,
    pub deleted: bool,
    pub user_email: String,
    pub user_name: String,
    pub user_contact_email: String,
}

/// One entry of the starred list: `repo` is the library's name and
/// encryption flag when it still exists (an empty name and unencrypted
/// otherwise), `mtime` and `deleted` what the walk of its path found.
pub fn build_starred_item(
    repo_id: &str,
    path: &str,
    is_dir: bool,
    repo: Option<(&str, bool)>,
    auth_email: &str,
    user_nickname: &str,
    mtime: i64,
    deleted: bool,
) -> (item: StarredItem)
    ensures
        item.repo_id@ == repo_id@,
        item.repo_name@ == (match repo {
            Some((n, _)) => n@,
            None => Seq::empty(),
        }),
        item.repo_encrypted == (repo matches Some((_, e)) && e),
        item.is_dir == is_dir,
        item.path@ == path@,
        item.obj_name@ == starred_obj_name_spec(path@, item.repo_name@),
        item.mtime@ == (match rfc3339_of(mtime) {
            Some(t) => t,
            None => Seq::empty(),
        }),
        item.deleted == deleted,
        item.user_email@ == auth_email@,
        item.user_name@ == user_nickname@,
        item.user_contact_email@ == auth_email@,
{
    let (repo_name, repo_encrypted) = match repo {
        Some((n, e)) => (owned(n), e),
        None => (String::new(), false),
    };
    let obj_name = starred_obj_name(path, repo_name.as_str());
    StarredItem {
        repo_id: owned(repo_id),
        repo_name,
        repo_encrypted,
        is_dir,
        path: owned(path),
        obj_name,
        mtime: timestamp_to_iso(mtime),
        deleted,
        user_email: owned(auth_email),
        user_name: owned(user_nickname),
        user_contact_email: owned(auth_email),
    }
}

} // verus!
