//! The pure parts of batch delete, copy and move: reading the list of names
//! a request carries, picking the entries a batch works on, and the commit
//! descriptions it writes.

use vstd::prelude::*;
use crate::dirent::{DirEntry, first_named, find_named, has_named};
use crate::error::AppError;
use crate::split::{lemma_first_piece, lemma_single_piece, nonempty_pieces, nonempty_pieces_exec, split_char};
use crate::text::{decimal, owned, push_decimal, push_str};

verus! {

/// The names in a colon-separated list, blanks dropped.
pub open spec fn file_names_of(s: Seq<char>) -> Seq<Seq<char>> {
    nonempty_pieces(s, ':')
}

/// Parse colon-separated file names; empty pieces are dropped.
pub fn parse_file_names(s: &str) -> (names: Vec<String>)
    ensures
        names@.map_values(|n: String| n@) == file_names_of(s@),
{
    nonempty_pieces_exec(s, ':')
}

/// Names joined with `:` between them, as a client sends a batch.
pub open spec fn joined_names(names: Seq<Seq<char>>) -> Seq<char>
    decreases names.len(),
{
    if names.len() == 0 {
        Seq::empty()
    } else if names.len() == 1 {
        names[0]
    } else {
        names[0] + seq![':'] + joined_names(names.drop_first())
    }
}

proof fn lemma_split_joined(names: Seq<Seq<char>>)
    requires
        names.len() > 0,
        forall|i: int| 0 <= i < names.len() ==> !(#[trigger] names[i]).contains(':'),
    ensures
        split_char(joined_names(names), ':') == names,
    decreases names.len(),
{
    if names.len() == 1 {
        lemma_single_piece(names[0], ':');
        assert(seq![names[0]] =~= names);
    } else {
        let rest = names.drop_first();
        assert forall|i: int| 0 <= i < rest.len() implies !(#[trigger] rest[i]).contains(':') by {
            assert(rest[i] == names[i + 1]);
        }
        lemma_split_joined(rest);
        let s = joined_names(names);
        let m = names[0].len() as int;
        assert(s[m] == ':');
        assert forall|i: int| 0 <= i < m implies s[i] != ':' by {
            assert(s[i] == names[0][i]);
            if s[i] == ':' {
                assert(names[0].contains(names[0][i]));
            }
        }
        lemma_first_piece(s, ':', m);
        assert(s.take(m) =~= names[0]);
        assert(s.skip(m + 1) =~= joined_names(rest));
        assert(seq![names[0]] + rest =~= names);
    }
}

proof fn lemma_filter_keeps_all(s: Seq<Seq<char>>)
    requires
        forall|i: int| 0 <= i < s.len() ==> (#[trigger] s[i]).len() > 0,
    ensures
        s.filter(|p: Seq<char>| p.len() > 0) == s,
    decreases s.len(),
{
    reveal(Seq::filter);
    if s.len() > 0 {
        let d = s.drop_last();
        assert forall|i: int| 0 <= i < d.len() implies (#[trigger] d[i]).len() > 0 by {
            assert(d[i] == s[i]);
        }
        lemma_filter_keeps_all(d);
        assert(d.push(s.last()) =~= s);
    } else {
        assert(s.filter(|p: Seq<char>| p.len() > 0) =~= s);
    }
}

/// Joining non-empty names without `:` and parsing the text back gives the
/// names, in order.
pub proof fn joined_names_parse_back(names: Seq<Seq<char>>)
    requires
        forall|i: int| 0 <= i < names.len() ==> (#[trigger] names[i]).len() > 0 && !names[i].contains(':'),
    ensures
        file_names_of(joined_names(names)) == names,
{
    if names.len() == 0 {
        reveal(Seq::filter);
        assert(split_char(Seq::<char>::empty(), ':') == seq![Seq::<char>::empty()]);
        let one = seq![Seq::<char>::empty()];
        assert(one.drop_last() =~= Seq::<Seq<char>>::empty());
        assert(Seq::<Seq<char>>::empty().filter(|p: Seq<char>| p.len() > 0) =~= Seq::<Seq<char>>::empty());
        assert(one.filter(|p: Seq<char>| p.len() > 0) =~= names);
    } else {
        lemma_split_joined(names);
        lemma_filter_keeps_all(names);
    }
}

/// Where one item of a batch copy or move ended up.
#[derive(Debug, Clone, PartialEq, Eq)]
pub struct BatchOpResult {
    pub repo_id: String,
    pub parent_dir: String,
    pub obj_name: String,
}

/// Whether every listed name has an entry in `src`.
pub open spec fn all_present(src: Seq<DirEntry>, names: Seq<String>) -> bool {
    forall|k: int| 0 <= k < names.len() ==> has_named(src, #[trigger] names[k]@)
}

/// The first listed name without an entry in `src`.
pub open spec fn first_missing(src: Seq<DirEntry>, names: Seq<String>) -> Option<int> {
    if all_present(src, names) {
        None
    } else {
        Some(
            choose|k: int|
                0 <= k < names.len() && !has_named(src, #[trigger] names[k]@) && forall|j: int|
                    0 <= j < k ==> has_named(src, #[trigger] names[j]@),
        )
    }
}

/// Whether `e` is the entry of `src` named `name`, restamped by `modifier`
/// at `mtime` as a batch copy or move writes it.
pub open spec fn restamped(e: DirEntry, src: Seq<DirEntry>, name: Seq<char>, modifier: Seq<char>, mtime: i64) -> bool {
    match first_named(src, name) {
        Some(j) => e.id == src[j].id && e.mode == src[j].mode && e.modifier@ == modifier
            && e.mtime == mtime && e.name == src[j].name && e.size == src[j].size,
        None => false,
    }
}

proof fn lemma_first_missing(src: Seq<DirEntry>, names: Seq<String>, k: int)
    requires
        0 <= k < names.len(),
        !has_named(src, names[k]@),
        forall|j: int| 0 <= j < k ==> has_named(src, #[trigger] names[j]@),
    ensures
        first_missing(src, names) == Some(k),
{
    assert(!all_present(src, names));
    let c = choose|c: int|
        0 <= c < names.len() && !has_named(src, #[trigger] names[c]@) && forall|j: int|
            0 <= j < c ==> has_named(src, #[trigger] names[j]@);
    if c < k {
        assert(has_named(src, names[c]@));
    }
    if c > k {
        assert(has_named(src, names[k]@));
    }
}

/// The entries a batch copy or move takes from its source directory, in
/// the order of `names`, restamped with the acting user and time; the first
/// name without an entry is refused with `NotFound`.
pub fn pick_entries(src: &[DirEntry], names: &[String], modifier: &str, mtime: i64) -> (r: Result<Vec<DirEntry>, AppError>)
    ensures
        match r {
            Ok(v) => all_present(src@, names@) && v@.len() == names@.len() && forall|k: int|
                0 <= k < names@.len() ==> restamped(
                    #[trigger] v@[k],
                    src@,
                    names@[k]@,
                    modifier@,
                    mtime,
                ),
            Err(e) => match first_missing(src@, names@) {
                Some(k) => e == AppError::NotFound(e->NotFound_0) && e->NotFound_0@
                    == "source file not found: "@ + names@[k]@,
                None => false,
            },
        },
{
    let mut picked: Vec<DirEntry> = Vec::new();
    let mut i: usize = 0;
    while i < names.len()
        invariant
            i <= names@.len(),
            picked@.len() == i,
            forall|k: int| 0 <= k < i ==> has_named(src@, #[trigger] names@[k]@),
            forall|k: int|
                0 <= k < i ==> restamped(#[trigger] picked@[k], src@, names@[k]@, modifier@, mtime),
        decreases names@.len() - i,
    {
        match find_named(src, names[i].as_str()) {
            Some(j) => {
                let e = &src[j];
                picked.push(
                    DirEntry {
                        id: e.id.clone(),
                        mode: e.mode,
                        modifier: owned(modifier),
                        mtime,
                        name: e.name.clone(),
                        size: e.size,
                    },
                );
            },
            None => {
                proof {
                    lemma_first_missing(src@, names@, i as int);
                }
                let mut msg = owned("source file not found: ");
                push_str(&mut msg, names[i].as_str());
                return Err(AppError::NotFound(msg));
            },
        }
        i = i + 1;
    }
    Ok(picked)
}

/// The description of a batch that added or moved `entries`:
/// `<verb> "<first>"`, or `<verb> "<first>" and <n> more <noun>`.
pub open spec fn batch_description_spec(verb: Seq<char>, noun: Seq<char>, entries: Seq<DirEntry>) -> Seq<char> {
    if entries.len() == 1 {
        verb + " \""@ + entries[0].name@ + "\""@
    } else {
        verb + " \""@ + entries[0].name@ + "\" and "@ + decimal((entries.len() - 1) as nat) + " more "@
            + noun
    }
}

fn batch_description(verb: &str, noun: &str, entries: &[DirEntry]) -> (s: String)
    requires
        entries@.len() >= 1,
    ensures
        s@ == batch_description_spec(verb@, noun@, entries@),
{
    let mut s = owned(verb);
    push_str(&mut s, " \"");
    push_str(&mut s, entries[0].name.as_str());
    if entries.len() == 1 {
        push_str(&mut s, "\"");
    } else {
        push_str(&mut s, "\" and ");
        push_decimal(&mut s, (entries.len() - 1) as u64);
        push_str(&mut s, " more ");
        push_str(&mut s, noun);
    }
    s
}

/// The commit description of a batch copy.
pub fn added_description(entries: &[DirEntry]) -> (s: String)
    requires
        entries@.len() >= 1,
    ensures
        s@ == batch_description_spec("Added"@, "files"@, entries@),
{
    batch_description("Added", "files", entries)
}

/// The commit description of a batch move.
pub fn moved_description(entries: &[DirEntry]) -> (s: String)
    requires
        entries@.len() >= 1,
    ensures
        s@ == batch_description_spec("Moved"@, "items"@, entries@),
{
    batch_description("Moved", "items", entries)
}

/// The commit description of a batch delete.
pub fn deleted_description(count: usize) -> (s: String)
    ensures
        s@ == "Deleted "@ + decimal(count as nat) + " items"@,
{
    let mut s = owned("Deleted ");
    push_decimal(&mut s, count as u64);
    push_str(&mut s, " items");
    s
}

/// The sum of the sizes of `entries`.
pub open spec fn total_size(entries: Seq<DirEntry>) -> int
    decreases entries.len(),
{
    if entries.len() == 0 {
        0
    } else {
        total_size(entries.drop_last()) + entries.last().size
    }
}

/// How much a batch copy adds to the library's size.
pub fn copied_bytes(entries: &[DirEntry]) -> (n: i64)
    requires
        forall|k: int| 0 <= k <= entries@.len() ==> i64::MIN <= #[trigger] total_size(entries@.take(k)) <= i64::MAX,
    ensures
        n == total_size(entries@),
{
    let mut n: i64 = 0;
    let mut i: usize = 0;
    proof {
        assert(entries@.take(0) =~= Seq::<DirEntry>::empty());
    }
    while i < entries.len()
        invariant
            i <= entries@.len(),
            n == total_size(entries@.take(i as int)),
            forall|k: int| 0 <= k <= entries@.len() ==> i64::MIN <= #[trigger] total_size(entries@.take(k)) <= i64::MAX,
        decreases entries@.len() - i,
    {
        proof {
            let t = entries@.take(i + 1);
            assert(t.drop_last() =~= entries@.take(i as int));
            assert(t.last() == entries@[i as int]);
            assert(i64::MIN <= total_size(entries@.take(i + 1)) <= i64::MAX);
        }
        n = n + entries[i].size;
        i = i + 1;
    }
    proof {
        assert(entries@.take(i as int) =~= entries@);
    }
    n
}

} // verus!
