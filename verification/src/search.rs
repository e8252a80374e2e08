//! File search: the order results are listed in, the page a request gets,
//! how a hit's path is taken apart, and which names match a keyword.

use vstd::prelude::*;
use crate::order::{lemma_text_lt_irreflexive, lemma_text_lt_total, lemma_text_lt_transitive, text_less, text_lt};
use crate::split::{nonempty_pieces, nonempty_pieces_exec};
use crate::text::{
    chars_of, to_lowercase, unicode_lowercase, contains_exec, contains_seq, last_index, last_index_exec, owned, push_char,
    push_chars, push_str, slice_range, str_eq,
};

verus! {

/// A single file search result entry.
#[derive(Debug, Clone, PartialEq, Eq)]
pub struct FileSearchResult {
    pub repo_id: String,
    pub repo_name: String,
    pub name: String,
    pub oid: String,
    pub last_modified: i64,
    /// Both `mtime` and `last_modified` carry the timestamp, for different
    /// clients.
    pub mtime: i64,
    pub fullpath: String,
    pub size: i64,
    pub is_dir: bool,
    /// The page of the directory holding the hit (or of the hit itself).
    pub dir_url: String,
    /// Highlighted snippet of a content match; empty for a name match.
    pub content_highlight: String,
}

impl FileSearchResult {
    /// A field-for-field copy.
    pub fn duplicate(&self) -> (r: Self)
        ensures
            r == *self,
    {
        FileSearchResult {
            repo_id: self.repo_id.clone(),
            repo_name: self.repo_name.clone(),
            name: self.name.clone(),
            oid: self.oid.clone(),
            last_modified: self.last_modified,
            mtime: self.mtime,
            fullpath: self.fullpath.clone(),
            size: self.size,
            is_dir: self.is_dir,
            dir_url: self.dir_url.clone(),
            content_highlight: self.content_highlight.clone(),
        }
    }
}

// ─── Listing order ───────────────────────────────────────────────────────

/// Whether `a` is listed before `b`: directories first, then by name.
pub open spec fn listed_before(a: FileSearchResult, b: FileSearchResult) -> bool {
    (a.is_dir && !b.is_dir) || (a.is_dir == b.is_dir && text_lt(a.name@, b.name@))
}

/// Whether two results share a place in the order.
pub open spec fn same_rank(a: FileSearchResult, b: FileSearchResult) -> bool {
    a.is_dir == b.is_dir && a.name@ == b.name@
}

proof fn lemma_listed_before(a: FileSearchResult, b: FileSearchResult, c: FileSearchResult)
    ensures
        !listed_before(a, a),
        listed_before(a, b) || listed_before(b, a) || same_rank(a, b),
        !(listed_before(a, b) && listed_before(b, a)),
        listed_before(a, b) && listed_before(b, c) ==> listed_before(a, c),
        same_rank(a, b) ==> !listed_before(a, b),
{
    lemma_text_lt_irreflexive(a.name@);
    lemma_text_lt_total(a.name@, b.name@);
    if listed_before(a, b) && listed_before(b, c) && a.is_dir == c.is_dir {
        lemma_text_lt_transitive(a.name@, b.name@, c.name@);
    }
}

/// `out` lists `input` in order, equal-ranked results keeping their input
/// order; `p[k]` is where `out[k]` came from.
pub open spec fn stable_listing(input: Seq<FileSearchResult>, out: Seq<FileSearchResult>, p: Seq<int>) -> bool {
    &&& out.len() == input.len()
    &&& p.len() == input.len()
    &&& forall|k: int| 0 <= k < out.len() ==> 0 <= #[trigger] p[k] < input.len() && out[k] == input[p[k]]
    &&& forall|k: int, l: int| 0 <= k < l < out.len() ==> #[trigger] p[k] != #[trigger] p[l]
    &&& forall|k: int, l: int| 0 <= k < l < out.len() ==> !listed_before(#[trigger] out[l], #[trigger] out[k])
    &&& forall|k: int, l: int|
        0 <= k < l < out.len() && same_rank(#[trigger] out[k], #[trigger] out[l]) ==> p[k] < p[l]
}

/// A stable listing puts every directory before every file, and within
/// the directories, as within the files, names in ascending string order.
pub proof fn listings_put_directories_first_then_names_ascending(
    input: Seq<FileSearchResult>,
    out: Seq<FileSearchResult>,
    p: Seq<int>,
)
    requires
        stable_listing(input, out, p),
    ensures
        forall|k: int, l: int| 0 <= k < l < out.len() && (#[trigger] out[l]).is_dir ==> (#[trigger] out[k]).is_dir,
        forall|k: int, l: int|
            0 <= k < l < out.len() && (#[trigger] out[k]).is_dir == (#[trigger] out[l]).is_dir ==> !text_lt(
                out[l].name@,
                out[k].name@,
            ),
{
    assert forall|k: int, l: int| 0 <= k < l < out.len() && (#[trigger] out[l]).is_dir implies (#[trigger] out[k]).is_dir by {
        assert(!listed_before(out[l], out[k]));
    }
    assert forall|k: int, l: int|
        0 <= k < l < out.len() && (#[trigger] out[k]).is_dir == (#[trigger] out[l]).is_dir implies !text_lt(
            out[l].name@,
            out[k].name@,
        ) by {
        assert(!listed_before(out[l], out[k]));
    }
}

/// Put results in listing order: directories first, then by name, results
/// of equal rank in the order they were found.
pub fn sort_search_results(results: &[FileSearchResult]) -> (out: Vec<FileSearchResult>)
    ensures
        exists|p: Seq<int>| stable_listing(results@, out@, p),
        forall|k: int, l: int| 0 <= k < l < out@.len() && (#[trigger] out@[l]).is_dir ==> (#[trigger] out@[k]).is_dir,
        forall|k: int, l: int|
            0 <= k < l < out@.len() && (#[trigger] out@[k]).is_dir == (#[trigger] out@[l]).is_dir ==> !text_lt(
                out@[l].name@,
                out@[k].name@,
            ),
{
    let mut out: Vec<FileSearchResult> = Vec::new();
    let ghost mut p: Seq<int> = Seq::empty();
    let mut i: usize = 0;
    while i < results.len()
        invariant
            i <= results@.len(),
            stable_listing(results@.take(i as int), out@, p),
        decreases results@.len() - i,
    {
        let ghost input = results@.take(i as int);
        let x = results[i].duplicate();
        let mut j: usize = 0;
        while j < out.len() && !before_exec(&x, &out[j])
            invariant
                j <= out@.len(),
                x == results@[i as int],
                forall|k: int| 0 <= k < j ==> !listed_before(x, #[trigger] out@[k]),
            decreases out@.len() - j,
        {
            j = j + 1;
        }
        let ghost old_out = out@;
        let ghost old_p = p;
        out.insert(j, x);
        proof {
            p = old_p.insert(j as int, i as int);
            let input2 = results@.take(i + 1);
            assert forall|k: int| 0 <= k < input.len() implies #[trigger] input2[k] == input[k] by {}
            assert(input2[i as int] == results@[i as int]);
            // Where each entry came from.
            assert forall|k: int| 0 <= k < out@.len() implies 0 <= #[trigger] p[k] < input2.len()
                && out@[k] == input2[p[k]] by {
                if k < j {
                    assert(out@[k] == old_out[k]);
                    assert(p[k] == old_p[k]);
                } else if k > j {
                    assert(out@[k] == old_out[k - 1]);
                    assert(p[k] == old_p[k - 1]);
                }
            }
            // No source used twice.
            assert forall|k: int, l: int| 0 <= k < l < out@.len() implies #[trigger] p[k]
                != #[trigger] p[l] by {
                let ok = if k < j { k } else { k - 1 };
                let ol = if l < j { l } else { l - 1 };
                if k != j && l != j {
                    assert(p[k] == old_p[ok]);
                    assert(p[l] == old_p[ol]);
                } else if k == j {
                    assert(p[l] == old_p[ol]);
                } else {
                    assert(p[k] == old_p[ok]);
                }
            }
            // Sorted, and stable.
            assert forall|k: int, l: int| 0 <= k < l < out@.len() implies !listed_before(
                #[trigger] out@[l],
                #[trigger] out@[k],
            ) && (same_rank(out@[k], out@[l]) ==> p[k] < p[l]) by {
                let ok = if k < j { k } else { k - 1 };
                let ol = if l < j { l } else { l - 1 };
                if k != j && l != j {
                    assert(out@[k] == old_out[ok]);
                    assert(out@[l] == old_out[ol]);
                    assert(p[k] == old_p[ok]);
                    assert(p[l] == old_p[ol]);
                    if ok == ol {
                        assert(false);
                    }
                } else if k == j {
                    // x against an entry that was at or after the insertion point.
                    assert(out@[l] == old_out[ol]);
                    assert(p[l] == old_p[ol]);
                    assert(j < old_out.len());
                    assert(listed_before(x, old_out[j as int]));
                    lemma_listed_before(x, old_out[j as int], old_out[ol]);
                    lemma_listed_before(old_out[ol], x, old_out[j as int]);
                    lemma_listed_before(old_out[ol], old_out[j as int], x);
                    if ol > j {
                        assert(!listed_before(old_out[ol], old_out[j as int]));
                    }
                    lemma_listed_before(old_out[j as int], old_out[ol], x);
                    if same_rank(old_out[j as int], old_out[ol]) {
                        assert(listed_before(x, old_out[ol]));
                    }
                    assert(listed_before(x, old_out[ol]));
                    lemma_listed_before(x, old_out[ol], x);
                } else {
                    // An entry before the insertion point against x.
                    assert(out@[k] == old_out[ok]);
                    assert(p[k] == old_p[ok]);
                    assert(!listed_before(x, old_out[ok]));
                    assert(p[k] < i);
                }
            }
        }
        i = i + 1;
    }
    proof {
        assert(results@.take(i as int) =~= results@);
        listings_put_directories_first_then_names_ascending(results@, out@, p);
    }
    out
}

fn before_exec(a: &FileSearchResult, b: &FileSearchResult) -> (r: bool)
    ensures
        r == listed_before(*a, *b),
{
    if a.is_dir != b.is_dir {
        return a.is_dir;
    }
    let an = chars_of(a.name.as_str());
    let bn = chars_of(b.name.as_str());
    text_less(an.as_slice(), bn.as_slice())
}

// ─── Paging ──────────────────────────────────────────────────────────────

/// The bounds `[start, end)` of the requested page among `len` results, and
/// whether more follow; a page or page size below one counts as one.
pub open spec fn page_bounds(len: int, page: int, per_page: int) -> (int, int, bool) {
    let pp = if per_page < 1 { 1 } else { per_page };
    let pg = if page < 1 { 1 } else { page };
    let offset = (pg - 1) * pp;
    if offset < len {
        (offset, if offset + pp < len { offset + pp } else { len }, offset + pp < len)
    } else {
        (len, len, false)
    }
}

/// The page a search request gets: the listed results in its range, how
/// many there are in all, and whether more follow.
pub fn search_page(listed: &[FileSearchResult], page: i32, per_page: i32) -> (r: (Vec<FileSearchResult>, i32, bool))
    requires
        listed@.len() <= i32::MAX,
        ({
            let pp = if per_page < 1 { 1 } else { per_page as int };
            let pg = if page < 1 { 1 } else { page as int };
            (pg - 1) * pp <= i32::MAX
        }),
    ensures
        ({
            let (start, end, more) = page_bounds(listed@.len() as int, page as int, per_page as int);
            &&& r.0@ == listed@.subrange(start, end)
            &&& r.1 == listed@.len()
            &&& r.2 == more
        }),
{
    let pp: i32 = if per_page < 1 { 1 } else { per_page };
    let pg: i32 = if page < 1 { 1 } else { page };
    proof {
        assert(0 <= (pg - 1) * pp) by (nonlinear_arith)
            requires
                pg >= 1,
                pp >= 1,
        ;
    }
    let offset = ((pg - 1) * pp) as usize;
    let len = listed.len();
    let mut out: Vec<FileSearchResult> = Vec::new();
    let more = offset < len && (pp as usize) < len - offset;
    if offset < len {
        let end = if (pp as usize) < len - offset { offset + pp as usize } else { len };
        let mut k = offset;
        while k < end
            invariant
                offset <= k <= end <= listed@.len(),
                out@ == listed@.subrange(offset as int, k as int),
            decreases end - k,
        {
            out.push(listed[k].duplicate());
            k = k + 1;
            proof {
                assert(out@ =~= listed@.subrange(offset as int, k as int));
            }
        }
    } else {
        proof {
            assert(out@ =~= listed@.subrange(len as int, len as int));
        }
    }
    (out, len as i32, more)
}

// ─── Paths of hits ───────────────────────────────────────────────────────

/// `pieces` joined by `/`.
pub open spec fn join_slash(pieces: Seq<Seq<char>>) -> Seq<char>
    decreases pieces.len(),
{
    if pieces.len() == 0 {
        Seq::empty()
    } else if pieces.len() == 1 {
        pieces[0]
    } else {
        join_slash(pieces.drop_last()) + seq!['/'] + pieces.last()
    }
}

/// A hit's name and parent directory, from its path's non-empty segments:
/// the last segment, and `/` followed by the others (just `/` when there
/// are none).
pub open spec fn hit_parts_spec(fullpath: Seq<char>) -> (Seq<char>, Seq<char>) {
    let segs = nonempty_pieces(fullpath, '/');
    (
        if segs.len() > 0 { segs.last() } else { Seq::empty() },
        if segs.len() <= 1 { seq!['/'] } else { seq!['/'] + join_slash(segs.drop_last()) },
    )
}

/// The name and parent directory of a hit.
pub fn hit_parts(fullpath: &str) -> (r: (String, String))
    ensures
        r.0@ == hit_parts_spec(fullpath@).0,
        r.1@ == hit_parts_spec(fullpath@).1,
{
    let segs = nonempty_pieces_exec(fullpath, '/');
    let ghost sv = segs@.map_values(|n: String| n@);
    let n = segs.len();
    let name = if n > 0 {
        segs[n - 1].clone()
    } else {
        String::new()
    };
    let mut parent = String::new();
    push_char(&mut parent, '/');
    if n > 1 {
        let mut k: usize = 0;
        while k < n - 1
            invariant
                n == segs@.len(),
                n > 1,
                k <= n - 1,
                sv == segs@.map_values(|s: String| s@),
                parent@ == seq!['/'] + join_slash(sv.take(k as int)),
            decreases n - 1 - k,
        {
            if k > 0 {
                push_char(&mut parent, '/');
            }
            push_str(&mut parent, segs[k].as_str());
            proof {
                let t = sv.take(k + 1);
                assert(t.drop_last() =~= sv.take(k as int));
                assert(t.last() == segs@[k as int]@);
                if k == 0 {
                    assert(sv.take(0) =~= Seq::<Seq<char>>::empty());
                    assert(parent@ =~= seq!['/'] + join_slash(t));
                } else {
                    assert(parent@ =~= seq!['/'] + join_slash(t));
                }
            }
            k = k + 1;
        }
        proof {
            assert(sv.take(k as int) =~= sv.drop_last());
        }
    } else {
        proof {
            assert(parent@ =~= seq!['/']);
        }
    }
    proof {
        if n > 0 {
            assert(sv.last() == segs@[n - 1]@);
        } else {
            assert(name@ =~= Seq::<char>::empty());
        }
    }
    (name, parent)
}

/// The page a hit links to: its own directory page for a directory, its
/// parent's for a file (the text before the last `/`, or `/`).
pub open spec fn dir_url_spec(repo_id: Seq<char>, fullpath: Seq<char>, is_dir: bool) -> Seq<char> {
    "/libraries/"@ + repo_id + "/files"@ + if is_dir {
        fullpath
    } else {
        match last_index(fullpath, '/') {
            Some(i) => fullpath.take(i),
            None => seq!['/'],
        }
    }
}

/// The directory page of a hit.
pub fn search_dir_url(repo_id: &str, fullpath: &str, is_dir: bool) -> (u: String)
    ensures
        u@ == dir_url_spec(repo_id@, fullpath@, is_dir),
{
    let mut u = owned("/libraries/");
    push_str(&mut u, repo_id);
    push_str(&mut u, "/files");
    if is_dir {
        push_str(&mut u, fullpath);
    } else {
        let v = chars_of(fullpath);
        match last_index_exec(v.as_slice(), '/') {
            Some(i) => {
                let head = slice_range(v.as_slice(), 0, i);
                push_chars(&mut u, head.as_slice());
                proof {
                    assert(head@ =~= v@.take(i as int));
                }
            },
            None => push_char(&mut u, '/'),
        }
    }
    u
}

/// The path of an entry found while walking a tree: the walk's base path
/// may be empty, absolute, or relative.
pub open spec fn walk_child_path_spec(path: Seq<char>, name: Seq<char>) -> Seq<char> {
    if path.len() == 0 {
        seq!['/'] + name
    } else if path[0] == '/' {
        path + seq!['/'] + name
    } else {
        seq!['/'] + path + seq!['/'] + name
    }
}

/// The path of an entry found while walking a tree.
pub fn walk_child_path(path: &str, name: &str) -> (p: String)
    ensures
        p@ == walk_child_path_spec(path@, name@),
{
    let v = chars_of(path);
    let mut p = String::new();
    if v.len() == 0 {
        push_char(&mut p, '/');
        push_str(&mut p, name);
    } else if v[0] == '/' {
        push_str(&mut p, path);
        push_char(&mut p, '/');
        push_str(&mut p, name);
    } else {
        push_char(&mut p, '/');
        push_str(&mut p, path);
        push_char(&mut p, '/');
        push_str(&mut p, name);
    }
    p
}

// ─── Matching names ──────────────────────────────────────────────────────

/// Whether an entry's name matches a search keyword: the keyword occurs in
/// the name, both lowercased.
pub fn name_matches(name: &str, keyword: &str) -> (b: bool)
    ensures
        b == contains_seq(unicode_lowercase(name@), unicode_lowercase(keyword@)),
{
    let n = to_lowercase(name);
    let k = to_lowercase(keyword);
    let nv = chars_of(n.as_str());
    let kv = chars_of(k.as_str());
    contains_exec(nv.as_slice(), kv.as_slice())
}

// ─── Which libraries a search covers ─────────────────────────────────────

/// Whether `ids` is in strictly increasing order.
pub open spec fn strictly_sorted(ids: Seq<String>) -> bool {
    forall|k: int, l: int| 0 <= k < l < ids.len() ==> text_lt(#[trigger] ids[k]@, #[trigger] ids[l]@)
}

/// Whether `ids` holds an id of this text.
pub open spec fn holds_id(ids: Seq<String>, id: Seq<char>) -> bool {
    exists|k: int| 0 <= k < ids.len() && #[trigger] ids[k]@ == id
}

pub(crate) fn insert_sorted(ids: &mut Vec<String>, id: &String)
    requires
        strictly_sorted(old(ids)@),
    ensures
        strictly_sorted(final(ids)@),
        forall|t: Seq<char>| holds_id(final(ids)@, t) <==> (holds_id(old(ids)@, t) || t == id@),
{
    let iv = chars_of(id.as_str());
    let mut j: usize = 0;
    while j < ids.len()
        invariant
            j <= ids@.len(),
            ids@ == old(ids)@,
            iv@ == id@,
            strictly_sorted(ids@),
            forall|k: int| 0 <= k < j ==> text_lt(#[trigger] ids@[k]@, id@),
        ensures
            j <= ids@.len(),
            ids@ == old(ids)@,
            forall|k: int| 0 <= k < j ==> text_lt(#[trigger] ids@[k]@, id@),
            j < ids@.len() ==> !text_lt(ids@[j as int]@, id@),
        decreases ids@.len() - j,
    {
        let cur = chars_of(ids[j].as_str());
        if !text_less(cur.as_slice(), iv.as_slice()) {
            break;
        }
        j = j + 1;
    }
    let ghost before = ids@;
    if j < ids.len() && str_eq(ids[j].as_str(), id.as_str()) {
        proof {
            assert forall|t: Seq<char>| holds_id(before, t) <==> (holds_id(before, t) || t == id@) by {
                if t == id@ {
                    assert(before[j as int]@ == t);
                }
            }
        }
        return;
    }
    ids.insert(j, id.clone());
    proof {
        let after = ids@;
        if j < before.len() {
            lemma_text_lt_total(before[j as int]@, id@);
        }
        assert forall|k: int, l: int| 0 <= k < l < after.len() implies text_lt(
            #[trigger] after[k]@,
            #[trigger] after[l]@,
        ) by {
            if l < j {
                assert(after[k] == before[k] && after[l] == before[l]);
            } else if l == j {
                assert(after[k] == before[k]);
            } else if k < j {
                assert(after[k] == before[k] && after[l] == before[l - 1]);
                if l - 1 > j {
                    lemma_text_lt_transitive(id@, before[j as int]@, before[l - 1]@);
                }
                lemma_text_lt_transitive(before[k]@, id@, before[l - 1]@);
            } else if k == j {
                assert(after[l] == before[l - 1]);
                if l - 1 > j {
                    lemma_text_lt_transitive(id@, before[j as int]@, before[l - 1]@);
                }
            } else {
                assert(after[k] == before[k - 1] && after[l] == before[l - 1]);
            }
        }
        assert forall|t: Seq<char>| holds_id(after, t) <==> (holds_id(before, t) || t == id@) by {
            if holds_id(after, t) {
                let k = choose|k: int| 0 <= k < after.len() && #[trigger] after[k]@ == t;
                if k < j {
                    assert(after[k] == before[k]);
                } else if k > j {
                    assert(after[k] == before[k - 1]);
                }
            }
            if holds_id(before, t) {
                let k = choose|k: int| 0 <= k < before.len() && #[trigger] before[k]@ == t;
                if k < j {
                    assert(after[k] == before[k]);
                } else {
                    assert(after[k + 1] == before[k]);
                }
            }
            if t == id@ {
                assert(after[j as int]@ == t);
            }
        }
    }
}

/// The libraries a user's search covers: those they are a member of or
/// own, each once, in increasing order, narrowed to `only` when given.
pub fn accessible_repo_ids(member_of: &[String], owned_ids: &[String], only: Option<&str>) -> (ids: Vec<String>)
    ensures
        strictly_sorted(ids@),
        forall|t: Seq<char>|
            holds_id(ids@, t) <==> ((holds_id(member_of@, t) || holds_id(owned_ids@, t)) && match only {
                Some(f) => t == f@,
                None => true,
            }),
{
    let mut all: Vec<String> = Vec::new();
    let mut i: usize = 0;
    while i < member_of.len()
        invariant
            i <= member_of@.len(),
            strictly_sorted(all@),
            forall|t: Seq<char>| holds_id(all@, t) <==> holds_id(member_of@.take(i as int), t),
        decreases member_of@.len() - i,
    {
        let ghost before = all@;
        insert_sorted(&mut all, &member_of[i]);
        proof {
            let tk = member_of@.take(i + 1);
            assert forall|t: Seq<char>| holds_id(tk, t) <==> (holds_id(member_of@.take(i as int), t)
                || t == member_of@[i as int]@) by {
                if holds_id(tk, t) {
                    let k = choose|k: int| 0 <= k < tk.len() && #[trigger] tk[k]@ == t;
                    if k < i {
                        assert(member_of@.take(i as int)[k] == tk[k]);
                    }
                }
                if holds_id(member_of@.take(i as int), t) {
                    let k = choose|k: int| 0 <= k < i && #[trigger] member_of@.take(i as int)[k]@ == t;
                    assert(tk[k] == member_of@.take(i as int)[k]);
                }
                if t == member_of@[i as int]@ {
                    assert(tk[i as int]@ == t);
                }
            }
        }
        i = i + 1;
    }
    proof {
        assert(member_of@.take(i as int) =~= member_of@);
    }
    let mut j: usize = 0;
    while j < owned_ids.len()
        invariant
            j <= owned_ids@.len(),
            strictly_sorted(all@),
            forall|t: Seq<char>|
                holds_id(all@, t) <==> (holds_id(member_of@, t) || holds_id(owned_ids@.take(j as int), t)),
        decreases owned_ids@.len() - j,
    {
        insert_sorted(&mut all, &owned_ids[j]);
        proof {
            let tk = owned_ids@.take(j + 1);
            assert forall|t: Seq<char>| holds_id(tk, t) <==> (holds_id(owned_ids@.take(j as int), t)
                || t == owned_ids@[j as int]@) by {
                if holds_id(tk, t) {
                    let k = choose|k: int| 0 <= k < tk.len() && #[trigger] tk[k]@ == t;
                    if k < j {
                        assert(owned_ids@.take(j as int)[k] == tk[k]);
                    }
                }
                if holds_id(owned_ids@.take(j as int), t) {
                    let k = choose|k: int| 0 <= k < j && #[trigger] owned_ids@.take(j as int)[k]@ == t;
                    assert(tk[k] == owned_ids@.take(j as int)[k]);
                }
                if t == owned_ids@[j as int]@ {
                    assert(tk[j as int]@ == t);
                }
            }
        }
        j = j + 1;
    }
    proof {
        assert(owned_ids@.take(j as int) =~= owned_ids@);
    }
    match only {
        None => all,
        Some(f) => {
            let mut ids: Vec<String> = Vec::new();
            let mut k: usize = 0;
            while k < all.len()
                invariant
                    k <= all@.len(),
                    strictly_sorted(all@),
                    forall|m: int| 0 <= m < ids@.len() ==> #[trigger] ids@[m]@ == f@,
                    ids@.len() <= 1,
                    ids@.len() == 1 ==> exists|m: int| 0 <= m < k && #[trigger] all@[m]@ == f@,
                    ids@.len() == 0 ==> forall|m: int| 0 <= m < k ==> #[trigger] all@[m]@ != f@,
                decreases all@.len() - k,
            {
                if str_eq(all[k].as_str(), f) {
                    if ids.len() == 0 {
                        ids.push(all[k].clone());
                    } else {
                        proof {
                            let m = choose|m: int| 0 <= m < k && #[trigger] all@[m]@ == f@;
                            assert(text_lt(all@[m]@, all@[k as int]@));
                            lemma_text_lt_irreflexive(f@);
                        }
                    }
                }
                k = k + 1;
            }
            proof {
                assert forall|t: Seq<char>| holds_id(ids@, t) <==> (holds_id(all@, t) && t == f@) by {
                    if holds_id(ids@, t) {
                        let m = choose|m: int| 0 <= m < ids@.len() && #[trigger] ids@[m]@ == t;
                        assert(ids@[m]@ == f@);
                    }
                    if holds_id(all@, t) && t == f@ {
                        let m = choose|m: int| 0 <= m < all@.len() && #[trigger] all@[m]@ == t;
                        assert(ids@.len() == 1);
                        assert(ids@[0]@ == f@);
                    }
                }
            }
            ids
        },
    }
}

} // verus!
