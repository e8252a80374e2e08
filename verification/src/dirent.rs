//! Directory entries and the edits file operations make to a directory's
//! list of them.
//!
//! A directory object holds its children as entries; a file operation
//! reads a directory, edits the list, and writes a new directory object.
//! The edits are here; reading and writing the objects is storage work.

use vstd::prelude::*;
use crate::text::str_eq;

verus! {

/// The mode bit of a directory entry that is a directory.
pub const S_IFDIR: u32 = 16384;
/// The mode bit of a directory entry that is a regular file.
pub const S_IFREG: u32 = 32768;

/// One child of a directory.
#[derive(Debug, Clone, PartialEq, Eq)]
pub struct DirEntry {
    /// The content identity of the child.
    pub id: String,
    pub mode: u32,
    /// Who last changed it.
    pub modifier: String,
    pub mtime: i64,
    pub name: String,
    pub size: i64,
}

impl DirEntry {
    /// A field-for-field copy.
    pub fn duplicate(&self) -> (d: Self)
        ensures
            d == *self,
    {
        DirEntry {
            id: self.id.clone(),
            mode: self.mode,
            modifier: self.modifier.clone(),
            mtime: self.mtime,
            name: self.name.clone(),
            size: self.size,
        }
    }
}

/// Whether a mode marks a directory.
pub open spec fn is_dir_mode_spec(mode: u32) -> bool {
    mode & 16384u32 != 0
}

/// Whether a mode marks a directory.
pub fn is_dir_mode(mode: u32) -> (b: bool)
    ensures
        b == is_dir_mode_spec(mode),
{
    mode & S_IFDIR != 0
}

/// Whether some entry of `d` has this name.
pub open spec fn has_named(d: Seq<DirEntry>, name: Seq<char>) -> bool {
    exists|i: int| 0 <= i < d.len() && #[trigger] d[i].name@ == name
}

/// The position of the first entry of `d` with this name.
pub open spec fn first_named(d: Seq<DirEntry>, name: Seq<char>) -> Option<int>
    decreases d.len(),
{
    if d.len() == 0 {
        None
    } else if d[0].name@ == name {
        Some(0)
    } else {
        match first_named(d.drop_first(), name) {
            Some(i) => Some(i + 1),
            None => None,
        }
    }
}

proof fn lemma_first_named(d: Seq<DirEntry>, name: Seq<char>)
    ensures
        match first_named(d, name) {
            Some(i) => 0 <= i < d.len() && d[i].name@ == name && forall|k: int|
                0 <= k < i ==> #[trigger] d[k].name@ != name,
            None => forall|k: int| 0 <= k < d.len() ==> #[trigger] d[k].name@ != name,
        },
        first_named(d, name) is Some <==> has_named(d, name),
    decreases d.len(),
{
    if d.len() > 0 {
        lemma_first_named(d.drop_first(), name);
        assert forall|k: int| 0 < k < d.len() implies #[trigger] d[k] == d.drop_first()[k - 1] by {}
        if d[0].name@ != name && has_named(d, name) {
            let i = choose|i: int| 0 <= i < d.len() && #[trigger] d[i].name@ == name;
            assert(d.drop_first()[i - 1].name@ == name);
        }
    }
}

/// The position of the first entry with this name, if any.
pub fn find_named(d: &[DirEntry], name: &str) -> (r: Option<usize>)
    ensures
        match r {
            Some(i) => first_named(d@, name@) == Some(i as int) && i < d@.len(),
            None => first_named(d@, name@) is None,
        },
        r is Some <==> has_named(d@, name@),
{
    proof {
        lemma_first_named(d@, name@);
    }
    let mut i: usize = 0;
    while i < d.len()
        invariant
            i <= d@.len(),
            forall|k: int| 0 <= k < i ==> #[trigger] d@[k].name@ != name@,
            first_named(d@, name@) is Some <==> has_named(d@, name@),
            match first_named(d@, name@) {
                Some(j) => 0 <= j < d@.len() && d@[j].name@ == name@ && forall|k: int|
                    0 <= k < j ==> #[trigger] d@[k].name@ != name@,
                None => forall|k: int| 0 <= k < d@.len() ==> #[trigger] d@[k].name@ != name@,
            },
        decreases d@.len() - i,
    {
        if str_eq(d[i].name.as_str(), name) {
            return Some(i);
        }
        i = i + 1;
    }
    None
}

/// `d` without the entries whose name is in `names`, order kept.
pub open spec fn without_names(d: Seq<DirEntry>, names: Seq<Seq<char>>) -> Seq<DirEntry>
    decreases d.len(),
{
    if d.len() == 0 {
        Seq::empty()
    } else {
        let rest = without_names(d.drop_last(), names);
        if names.contains(d.last().name@) {
            rest
        } else {
            rest.push(d.last())
        }
    }
}

fn names_contain(names: &[String], name: &str) -> (b: bool)
    ensures
        b == names@.map_values(|n: String| n@).contains(name@),
{
    let ghost nv = names@.map_values(|n: String| n@);
    let mut i: usize = 0;
    while i < names.len()
        invariant
            i <= names@.len(),
            nv == names@.map_values(|n: String| n@),
            forall|k: int| 0 <= k < i ==> #[trigger] nv[k] != name@,
        decreases names@.len() - i,
    {
        if str_eq(names[i].as_str(), name) {
            proof {
                assert(nv[i as int] == name@);
            }
            return true;
        }
        i = i + 1;
    }
    false
}

/// Drop every entry whose name is listed: what a delete or the source side
/// of a move does to the parent directory.
pub fn remove_names(d: &[DirEntry], names: &[String]) -> (out: Vec<DirEntry>)
    ensures
        out@ == without_names(d@, names@.map_values(|n: String| n@)),
{
    let ghost nv = names@.map_values(|n: String| n@);
    let mut out: Vec<DirEntry> = Vec::new();
    let mut i: usize = 0;
    proof {
        assert(d@.take(0) =~= Seq::<DirEntry>::empty());
    }
    while i < d.len()
        invariant
            i <= d@.len(),
            nv == names@.map_values(|n: String| n@),
            out@ == without_names(d@.take(i as int), nv),
        decreases d@.len() - i,
    {
        proof {
            let t = d@.take(i + 1);
            assert(t.drop_last() =~= d@.take(i as int));
            assert(t.last() == d@[i as int]);
        }
        if !names_contain(names, d[i].name.as_str()) {
            out.push(d[i].duplicate());
        }
        i = i + 1;
    }
    proof {
        assert(d@.take(i as int) =~= d@);
    }
    out
}

/// What is left of `d` after a remove: exactly the entries whose names were
/// not listed.
pub proof fn removed_names_are_gone(d: Seq<DirEntry>, names: Seq<Seq<char>>)
    ensures
        forall|k: int|
            0 <= k < without_names(d, names).len() ==> !names.contains(
                #[trigger] without_names(d, names)[k].name@,
            ),
        forall|k: int|
            0 <= k < d.len() && !names.contains(#[trigger] d[k].name@) ==> without_names(
                d,
                names,
            ).contains(d[k]),
    decreases d.len(),
{
    if d.len() > 0 {
        let p = d.drop_last();
        removed_names_are_gone(p, names);
        let rest = without_names(p, names);
        assert forall|k: int|
            0 <= k < d.len() && !names.contains(#[trigger] d[k].name@) implies without_names(
            d,
            names,
        ).contains(d[k]) by {
            if k < d.len() - 1 {
                assert(p[k] == d[k]);
                let j = choose|j: int| 0 <= j < rest.len() && rest[j] == p[k];
                if !names.contains(d.last().name@) {
                    assert(rest.push(d.last())[j] == d[k]);
                }
            } else {
                assert(rest.push(d.last())[rest.len() as int] == d[k]);
            }
        }
    }
}

/// `d` with the named entry removed: every entry of that name goes.
pub fn remove_named(d: &[DirEntry], name: &str) -> (out: Vec<DirEntry>)
    ensures
        out@ == without_names(d@, seq![name@]),
{
    let mut out: Vec<DirEntry> = Vec::new();
    let mut i: usize = 0;
    proof {
        assert(d@.take(0) =~= Seq::<DirEntry>::empty());
    }
    while i < d.len()
        invariant
            i <= d@.len(),
            out@ == without_names(d@.take(i as int), seq![name@]),
        decreases d@.len() - i,
    {
        proof {
            let t = d@.take(i + 1);
            assert(t.drop_last() =~= d@.take(i as int));
            assert(t.last() == d@[i as int]);
            assert(seq![name@].contains(d@[i as int].name@) <==> d@[i as int].name@ == name@) by {
                if d@[i as int].name@ == name@ {
                    assert(seq![name@][0] == name@);
                }
            }
        }
        if !str_eq(d[i].name.as_str(), name) {
            out.push(d[i].duplicate());
        }
        i = i + 1;
    }
    proof {
        assert(d@.take(i as int) =~= d@);
    }
    out
}

/// `d` with `e` appended unless an entry of its name is already there: the
/// destination side of a single-file move.
pub fn add_if_absent(d: &[DirEntry], e: DirEntry) -> (out: Vec<DirEntry>)
    ensures
        out@ == if has_named(d@, e.name@) {
            d@
        } else {
            d@.push(e)
        },
{
    let mut out: Vec<DirEntry> = Vec::new();
    let mut i: usize = 0;
    while i < d.len()
        invariant
            i <= d@.len(),
            out@ == d@.take(i as int),
        decreases d@.len() - i,
    {
        out.push(d[i].duplicate());
        i = i + 1;
        proof {
            assert(out@ =~= d@.take(i as int));
        }
    }
    proof {
        assert(d@.take(i as int) =~= d@);
    }
    match find_named(d, e.name.as_str()) {
        Some(_) => out,
        None => {
            out.push(e);
            out
        },
    }
}

/// `d` with the first entry of identity `id` renamed.
pub open spec fn renamed(d: Seq<DirEntry>, id: Seq<char>, new_name: String) -> Seq<DirEntry> {
    match first_with_id(d, id) {
        Some(i) => d.update(i, DirEntry { name: new_name, ..d[i] }),
        None => d,
    }
}

/// The position of the first entry of `d` with this identity.
pub open spec fn first_with_id(d: Seq<DirEntry>, id: Seq<char>) -> Option<int>
    decreases d.len(),
{
    if d.len() == 0 {
        None
    } else if d[0].id@ == id {
        Some(0)
    } else {
        match first_with_id(d.drop_first(), id) {
            Some(i) => Some(i + 1),
            None => None,
        }
    }
}

proof fn lemma_first_with_id(d: Seq<DirEntry>, id: Seq<char>)
    ensures
        match first_with_id(d, id) {
            Some(i) => 0 <= i < d.len() && d[i].id@ == id && forall|k: int|
                0 <= k < i ==> #[trigger] d[k].id@ != id,
            None => forall|k: int| 0 <= k < d.len() ==> #[trigger] d[k].id@ != id,
        },
    decreases d.len(),
{
    if d.len() > 0 {
        lemma_first_with_id(d.drop_first(), id);
        assert forall|k: int| 0 < k < d.len() implies #[trigger] d[k] == d.drop_first()[k - 1] by {}
    }
}

/// Rename the child of identity `id`: what a rename does to the parent.
pub fn rename_entry(d: &mut Vec<DirEntry>, id: &str, new_name: String)
    ensures
        final(d)@ == renamed(old(d)@, id@, new_name),
{
    proof {
        lemma_first_with_id(d@, id@);
    }
    let mut i: usize = 0;
    while i < d.len()
        invariant
            i <= d@.len(),
            d@ == old(d)@,
            forall|k: int| 0 <= k < i ==> #[trigger] d@[k].id@ != id@,
            match first_with_id(d@, id@) {
                Some(j) => 0 <= j < d@.len() && d@[j].id@ == id@ && forall|k: int|
                    0 <= k < j ==> #[trigger] d@[k].id@ != id@,
                None => forall|k: int| 0 <= k < d@.len() ==> #[trigger] d@[k].id@ != id@,
            },
        decreases d@.len() - i,
    {
        if str_eq(d[i].id.as_str(), id) {
            let e = DirEntry {
                id: d[i].id.clone(),
                mode: d[i].mode,
                modifier: d[i].modifier.clone(),
                mtime: d[i].mtime,
                name: new_name,
                size: d[i].size,
            };
            d.set(i, e);
            return;
        }
        i = i + 1;
    }
}

} // verus!
