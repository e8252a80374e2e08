//! The sync protocol's bookkeeping: what a folder-permission check answers,
//! the walk that gathers the objects under a root, and which of a set of
//! objects are directories.

use vstd::prelude::*;
use crate::text::{owned, str_eq};

verus! {

/// A library a client may sync, with its sync token.
#[derive(Debug, Clone, PartialEq, Eq)]
pub struct AccessibleRepo {
    pub repo_id: String,
    pub repo_name: String,
    pub repo_desc: String,
    pub owner_email: String,
    pub token: String,
    pub permission: String,
}

/// The answer to a folder-permission check.
#[derive(Debug, Clone, PartialEq, Eq)]
pub struct FolderPermResult {
    pub valid: bool,
    pub permission: String,
}

/// The answer to a folder-permission check: an unknown token is invalid
/// with no permission; a valid one carries the first membership's
/// permission, `rw` when the library has no members.
pub fn folder_perm(token_valid: bool, first_permission: Option<&str>) -> (r: FolderPermResult)
    ensures
        r.valid == token_valid,
        !token_valid ==> r.permission@.len() == 0,
        token_valid ==> r.permission@ == match first_permission {
            Some(p) => p@,
            None => "rw"@,
        },
{
    if !token_valid {
        return FolderPermResult { valid: false, permission: String::new() };
    }
    let permission = match first_permission {
        Some(p) => owned(p),
        None => owned("rw"),
    };
    FolderPermResult { valid: true, permission }
}

/// Whether `ids` holds an id of this text.
pub open spec fn has_fs_id(ids: Seq<String>, id: Seq<char>) -> bool {
    exists|k: int| 0 <= k < ids.len() && #[trigger] ids[k]@ == id
}

/// Whether no id occurs twice in `ids`.
pub open spec fn distinct_ids(ids: Seq<String>) -> bool {
    forall|a: int, b: int| 0 <= a < b < ids.len() ==> #[trigger] ids[a]@ != #[trigger] ids[b]@
}

fn has_fs_id_exec(ids: &Vec<String>, id: &str) -> (b: bool)
    ensures
        b == has_fs_id(ids@, id@),
{
    let mut i: usize = 0;
    while i < ids.len()
        invariant
            i <= ids@.len(),
            forall|k: int| 0 <= k < i ==> #[trigger] ids@[k]@ != id@,
        decreases ids@.len() - i,
    {
        if str_eq(ids[i].as_str(), id) {
            return true;
        }
        i = i + 1;
    }
    false
}

/// The walk that gathers every object under a root, depth first: the
/// caller fetches each id the walk hands out and reports what it found.
pub struct FsIdWalk {
    collected: Vec<String>,
    stack: Vec<String>,
}

impl FsIdWalk {
    /// The objects gathered so far.
    pub closed spec fn collected(&self) -> Seq<String> {
        self.collected@
    }

    /// The ids still to look at, the next one last.
    pub closed spec fn pending(&self) -> Seq<String> {
        self.stack@
    }

    /// Nothing is gathered twice.
    pub open spec fn well_formed(&self) -> bool {
        distinct_ids(self.collected())
    }

    /// A walk from `root`.
    pub fn new(root: &str) -> (w: Self)
        ensures
            w.well_formed(),
            w.collected().len() == 0,
            w.pending().len() == 1,
            w.pending()[0]@ == root@,
    {
        let mut stack: Vec<String> = Vec::new();
        stack.push(owned(root));
        FsIdWalk { collected: Vec::new(), stack }
    }

    /// The next id to fetch: the most recently pushed one not gathered
    /// yet, taken off the stack with the gathered ones pushed after it;
    /// none, with the stack emptied, once every pending id is gathered.
    pub fn next_id(&mut self) -> (r: Option<String>)
        requires
            old(self).well_formed(),
        ensures
            final(self).well_formed(),
            final(self).collected() == old(self).collected(),
            final(self).pending().len() <= old(self).pending().len(),
            r matches Some(id) ==> !has_fs_id(final(self).collected(), id@),
            r is None ==> final(self).pending().len() == 0,
            match r {
                Some(id) => exists|j: int|
                    0 <= j < old(self).pending().len() && old(self).pending()[j] == id && final(self).pending()
                        == old(self).pending().take(j) && forall|k: int|
                        j < k < old(self).pending().len() ==> has_fs_id(
                            old(self).collected(),
                            (#[trigger] old(self).pending()[k])@,
                        ),
                None => forall|k: int|
                    0 <= k < old(self).pending().len() ==> has_fs_id(
                        old(self).collected(),
                        (#[trigger] old(self).pending()[k])@,
                    ),
            },
    {
        let ghost orig = self.stack@;
        while self.stack.len() > 0
            invariant
                self.well_formed(),
                self.collected() == old(self).collected(),
                orig == old(self).pending(),
                self.stack@.len() <= orig.len(),
                self.stack@ == orig.take(self.stack@.len() as int),
                forall|k: int|
                    self.stack@.len() <= k < orig.len() ==> has_fs_id(
                        old(self).collected(),
                        (#[trigger] orig[k])@,
                    ),
            decreases self.stack@.len(),
        {
            let ghost n = self.stack@.len() as int;
            let id = self.stack.pop().unwrap();
            proof {
                assert(id == orig[n - 1]);
                assert(self.stack@ =~= orig.take(n - 1));
            }
            if !has_fs_id_exec(&self.collected, id.as_str()) {
                return Some(id);
            }
        }
        None
    }

    /// Report a fetched object: it is gathered, and a directory's entries
    /// are queued. An object that was not found is not gathered.
    pub fn record(&mut self, id: String, found: bool, children: Vec<String>)
        requires
            old(self).well_formed(),
            !has_fs_id(old(self).collected(), id@),
        ensures
            final(self).well_formed(),
            found ==> final(self).collected() == old(self).collected().push(id),
            !found ==> final(self).collected() == old(self).collected(),
            found ==> final(self).pending() == old(self).pending() + children@,
            !found ==> final(self).pending() == old(self).pending(),
    {
        if !found {
            return;
        }
        let ghost before = self.collected@;
        self.collected.push(id);
        proof {
            let v = self.collected@;
            assert(v == before.push(id));
            assert forall|a: int, b: int| 0 <= a < b < v.len() implies #[trigger] v[a]@ != #[trigger] v[b]@ by {
                if b == v.len() - 1 {
                    assert(v[a] == before[a]);
                    assert(v[b] == id);
                } else {
                    assert(v[a] == before[a] && v[b] == before[b]);
                }
            }
        }
        let ghost pend = self.stack@;
        let ghost gathered = self.collected@;
        let mut k: usize = 0;
        while k < children.len()
            invariant
                k <= children@.len(),
                self.stack@ == pend + children@.take(k as int),
                self.collected@ == gathered,
                distinct_ids(self.collected@),
            decreases children@.len() - k,
        {
            self.stack.push(children[k].clone());
            k = k + 1;
            proof {
                assert(self.stack@ =~= pend + children@.take(k as int));
            }
        }
        proof {
            assert(children@.take(k as int) =~= children@);
        }
    }

    /// Everything gathered, once the walk is over.
    pub fn into_collected(self) -> (ids: Vec<String>)
        requires
            self.well_formed(),
        ensures
            ids@ == self.collected(),
            distinct_ids(ids@),
    {
        self.collected
    }
}

// ─── What a finished walk has gathered ──────────────────────────────────

/// Whether `x` is gathered, pending, or the id handed out and not yet
/// reported.
pub open spec fn covered(collected: Seq<String>, pending: Seq<String>, out: Option<Seq<char>>, x: Seq<char>) -> bool {
    has_fs_id(collected, x) || has_fs_id(pending, x) || out == Some(x)
}

/// The walk's invariant over the store's objects `store` (an id maps to
/// the ids of a directory's entries, or to none for a file; an id the map
/// lacks is not in the store): every gathered id is an object of the store,
/// and the root and every entry of a gathered object that is in the store
/// are gathered, pending, or handed out.
pub open spec fn walk_closed(
    collected: Seq<String>,
    pending: Seq<String>,
    out: Option<Seq<char>>,
    store: Map<Seq<char>, Seq<Seq<char>>>,
    root: Seq<char>,
) -> bool {
    &&& store.dom().contains(root) ==> covered(collected, pending, out, root)
    &&& forall|k: int| 0 <= k < collected.len() ==> store.dom().contains(#[trigger] collected[k]@)
    &&& forall|k: int, i: int|
        0 <= k < collected.len() && 0 <= i < store[collected[k]@].len() && store.dom().contains(
            #[trigger] store[#[trigger] collected[k]@][i],
        ) ==> covered(collected, pending, out, store[collected[k]@][i])
}

/// A new walk is closed: nothing is gathered and the root is pending.
pub proof fn a_new_walk_is_closed(root: Seq<char>, pending: Seq<String>, store: Map<Seq<char>, Seq<Seq<char>>>)
    requires
        pending.len() == 1,
        pending[0]@ == root,
    ensures
        walk_closed(Seq::empty(), pending, None, store, root),
{
    assert(has_fs_id(pending, root));
}

/// Handing out an id keeps the walk closed: the ids `next_id` drops are
/// gathered already, and the one it hands out counts as handed out; when
/// it hands out none, nothing is left pending.
pub proof fn handing_out_keeps_the_walk_closed(
    collected: Seq<String>,
    pending: Seq<String>,
    store: Map<Seq<char>, Seq<Seq<char>>>,
    root: Seq<char>,
    r: Option<String>,
    after: Seq<String>,
)
    requires
        walk_closed(collected, pending, None, store, root),
        match r {
            Some(id) => exists|j: int|
                0 <= j < pending.len() && pending[j] == id && after == pending.take(j) && forall|k: int|
                    j < k < pending.len() ==> has_fs_id(collected, (#[trigger] pending[k])@),
            None => after.len() == 0 && forall|k: int|
                0 <= k < pending.len() ==> has_fs_id(collected, (#[trigger] pending[k])@),
        },
    ensures
        walk_closed(
            collected,
            after,
            match r {
                Some(id) => Some(id@),
                None => None,
            },
            store,
            root,
        ),
{
    let out = match r {
        Some(id) => Some(id@),
        None => None,
    };
    assert forall|x: Seq<char>| covered(collected, pending, None, x) implies covered(collected, after, out, x) by {
        if has_fs_id(pending, x) && !has_fs_id(collected, x) {
            let m = choose|m: int| 0 <= m < pending.len() && #[trigger] pending[m]@ == x;
            match r {
                Some(id) => {
                    let j = choose|j: int|
                        0 <= j < pending.len() && pending[j] == id && after == pending.take(j) && forall|k: int|
                            j < k < pending.len() ==> has_fs_id(collected, (#[trigger] pending[k])@);
                    if m < j {
                        assert(after[m] == pending[m]);
                    } else if m > j {
                        assert(has_fs_id(collected, pending[m]@));
                    }
                },
                None => {
                    assert(has_fs_id(collected, pending[m]@));
                },
            }
        }
    }
    assert forall|k: int, i: int|
        0 <= k < collected.len() && 0 <= i < store[collected[k]@].len() && store.dom().contains(
            #[trigger] store[#[trigger] collected[k]@][i],
        ) implies covered(collected, after, out, store[collected[k]@][i]) by {
        assert(covered(collected, pending, None, store[collected[k]@][i]));
    }
}

/// Reporting what the store holds for the handed-out id keeps the walk
/// closed: a found object is gathered and its entries become pending, and
/// an id the store lacks is dropped.
pub proof fn reporting_keeps_the_walk_closed(
    collected: Seq<String>,
    pending: Seq<String>,
    store: Map<Seq<char>, Seq<Seq<char>>>,
    root: Seq<char>,
    id: String,
    children: Seq<String>,
    collected_after: Seq<String>,
    pending_after: Seq<String>,
)
    requires
        walk_closed(collected, pending, Some(id@), store, root),
        store.dom().contains(id@) ==> children.map_values(|c: String| c@) == store[id@],
        store.dom().contains(id@) ==> collected_after == collected.push(id) && pending_after == pending + children,
        !store.dom().contains(id@) ==> collected_after == collected && pending_after == pending,
    ensures
        walk_closed(collected_after, pending_after, None, store, root),
{
    let found = store.dom().contains(id@);
    assert forall|x: Seq<char>| store.dom().contains(x) && covered(collected, pending, Some(id@), x) implies covered(
        collected_after,
        pending_after,
        None,
        x,
    ) by {
        if has_fs_id(collected, x) {
            let m = choose|m: int| 0 <= m < collected.len() && #[trigger] collected[m]@ == x;
            if found {
                assert(collected_after[m] == collected[m]);
            }
        } else if has_fs_id(pending, x) {
            let m = choose|m: int| 0 <= m < pending.len() && #[trigger] pending[m]@ == x;
            if found {
                assert(pending_after[m] == pending[m]);
            }
        } else {
            assert(x == id@);
            assert(collected_after[collected.len() as int] == id);
        }
    }
    assert forall|k: int| 0 <= k < collected_after.len() implies store.dom().contains(#[trigger] collected_after[k]@) by {
        if k < collected.len() {
            assert(collected_after[k] == collected[k]);
        }
    }
    assert forall|k: int, i: int|
        0 <= k < collected_after.len() && 0 <= i < store[collected_after[k]@].len() && store.dom().contains(
            #[trigger] store[#[trigger] collected_after[k]@][i],
        ) implies covered(collected_after, pending_after, None, store[collected_after[k]@][i]) by {
        let x = store[collected_after[k]@][i];
        if k < collected.len() {
            assert(collected_after[k] == collected[k]);
            assert(covered(collected, pending, Some(id@), x));
        } else {
            assert(collected_after[k] == id);
            let views = children.map_values(|c: String| c@);
            assert(views[i] == x);
            assert(pending_after[pending.len() + i] == children[i]);
            assert(pending_after[pending.len() + i]@ == x);
        }
    }
}

/// Whether `path` leads from `root` through the store: it starts at the
/// root, and each later id is an entry of the object before it, which is in
/// the store.
pub open spec fn is_path(store: Map<Seq<char>, Seq<Seq<char>>>, root: Seq<char>, path: Seq<Seq<char>>) -> bool {
    &&& path.len() > 0
    &&& path[0] == root
    &&& forall|i: int|
        0 <= i < path.len() - 1 ==> store.dom().contains(#[trigger] path[i]) && store[path[i]].contains(path[i + 1])
}

/// A finished walk has gathered every object of the store reachable from
/// the root through the store's objects, and nothing else.
pub proof fn a_finished_walk_gathers_everything_reachable(
    collected: Seq<String>,
    store: Map<Seq<char>, Seq<Seq<char>>>,
    root: Seq<char>,
    path: Seq<Seq<char>>,
)
    requires
        walk_closed(collected, Seq::empty(), None, store, root),
        is_path(store, root, path),
        store.dom().contains(path.last()),
    ensures
        has_fs_id(collected, path.last()),
        forall|k: int| 0 <= k < collected.len() ==> store.dom().contains(#[trigger] collected[k]@),
    decreases path.len(),
{
    let x = path.last();
    if path.len() == 1 {
        assert(covered(collected, Seq::empty(), None, root));
    } else {
        let prefix = path.drop_last();
        let p = prefix.last();
        assert(p == path[path.len() - 2]);
        assert(store.dom().contains(path[path.len() - 2]));
        assert forall|i: int| 0 <= i < prefix.len() - 1 implies store.dom().contains(#[trigger] prefix[i])
            && store[prefix[i]].contains(prefix[i + 1]) by {
            assert(prefix[i] == path[i] && prefix[i + 1] == path[i + 1]);
        }
        a_finished_walk_gathers_everything_reachable(collected, store, root, prefix);
        let k = choose|k: int| 0 <= k < collected.len() && #[trigger] collected[k]@ == p;
        assert(store[p].contains(x));
        let i = choose|i: int| 0 <= i < store[p].len() && store[p][i] == x;
        assert(store[collected[k]@][i] == x);
        assert(covered(collected, Seq::empty(), None, x));
    }
}

/// The ids of `ids` that `dirs` lists as directories, in order.
pub open spec fn dir_ids_of(ids: Seq<String>, dirs: Seq<String>) -> Seq<String>
    decreases ids.len(),
{
    if ids.len() == 0 {
        Seq::empty()
    } else {
        let rest = dir_ids_of(ids.drop_last(), dirs);
        if has_fs_id(dirs, ids.last()@) {
            rest.push(ids.last())
        } else {
            rest
        }
    }
}

/// Keep the ids that are directories.
pub fn filter_dir_ids(ids: &Vec<String>, dirs: &Vec<String>) -> (out: Vec<String>)
    ensures
        out@ == dir_ids_of(ids@, dirs@),
{
    let mut out: Vec<String> = Vec::new();
    let mut i: usize = 0;
    proof {
        assert(ids@.take(0) =~= Seq::<String>::empty());
    }
    while i < ids.len()
        invariant
            i <= ids@.len(),
            out@ == dir_ids_of(ids@.take(i as int), dirs@),
        decreases ids@.len() - i,
    {
        proof {
            let t = ids@.take(i + 1);
            assert(t.drop_last() =~= ids@.take(i as int));
            assert(t.last() == ids@[i as int]);
        }
        if has_fs_id_exec(dirs, ids[i].as_str()) {
            out.push(ids[i].clone());
        }
        i = i + 1;
    }
    proof {
        assert(ids@.take(i as int) =~= ids@);
    }
    out
}

} // verus!
