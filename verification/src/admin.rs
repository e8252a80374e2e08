//! The administrator's view of accounts, and the walk that lists every file
//! path of a library for re-indexing.

use vstd::prelude::*;
use crate::dirent::{DirEntry, is_dir_mode, is_dir_mode_spec};
use crate::text::{owned, push_char, push_str};

verus! {

/// A user as the admin user page lists it.
#[derive(Debug, Clone, PartialEq, Eq)]
pub struct UserAdminInfo {
    pub id: i32,
    pub email: String,
    pub is_active: bool,
    pub is_admin: bool,
    pub storage_quota: Option<i64>,
    pub usage: i64,
    pub created_at: i64,
    pub last_login_at: Option<i64>,
}

/// The storage a user's libraries hold, from per-owner totals; an owner
/// without libraries uses nothing.
pub open spec fn usage_of_spec(totals: Seq<(i32, i64)>, user_id: i32) -> i64
    decreases totals.len(),
{
    if totals.len() == 0 {
        0
    } else if totals.last().0 == user_id {
        totals.last().1
    } else {
        usage_of_spec(totals.drop_last(), user_id)
    }
}

/// The storage a user's libraries hold; the last total given for an owner
/// counts.
pub fn usage_of(totals: &[(i32, i64)], user_id: i32) -> (u: i64)
    ensures
        u == usage_of_spec(totals@, user_id),
{
    let mut i = totals.len();
    proof {
        assert(totals@.take(i as int) =~= totals@);
    }
    while i > 0
        invariant
            i <= totals@.len(),
            usage_of_spec(totals@, user_id) == usage_of_spec(totals@.take(i as int), user_id),
        decreases i,
    {
        proof {
            let t = totals@.take(i as int);
            assert(t.drop_last() =~= totals@.take(i - 1));
            assert(t.last() == totals@[i - 1]);
        }
        if totals[i - 1].0 == user_id {
            return totals[i - 1].1;
        }
        i = i - 1;
    }
    proof {
        assert(totals@.take(0) =~= Seq::<(i32, i64)>::empty());
    }
    0
}

/// The path of an entry named `name` under `prefix`: the name alone at the
/// top of the tree, else `prefix/name`.
pub open spec fn joined_spec(prefix: Seq<char>, name: Seq<char>) -> Seq<char> {
    if prefix.len() == 0 {
        name
    } else {
        prefix + seq!['/'] + name
    }
}

/// The path of an entry under a prefix.
pub fn joined(prefix: &str, name: &str) -> (p: String)
    ensures
        p@ == joined_spec(prefix@, name@),
{
    let mut p = owned(prefix);
    if !prefix.is_empty() {
        push_char(&mut p, '/');
    }
    push_str(&mut p, name);
    p
}

/// The files of one directory listing under a prefix, in listing order.
pub open spec fn listing_files(prefix: Seq<char>, entries: Seq<DirEntry>) -> Seq<Seq<char>>
    decreases entries.len(),
{
    if entries.len() == 0 {
        Seq::empty()
    } else {
        let rest = listing_files(prefix, entries.drop_last());
        let e = entries.last();
        if is_dir_mode_spec(e.mode) {
            rest
        } else {
            rest.push(joined_spec(prefix, e.name@))
        }
    }
}

/// The subdirectories of one listing, as (content identity, path) pairs
/// for the next level of the walk, in listing order.
pub open spec fn listing_dirs(prefix: Seq<char>, entries: Seq<DirEntry>) -> Seq<(Seq<char>, Seq<char>)>
    decreases entries.len(),
{
    if entries.len() == 0 {
        Seq::empty()
    } else {
        let rest = listing_dirs(prefix, entries.drop_last());
        let e = entries.last();
        if is_dir_mode_spec(e.mode) {
            rest.push((e.id@, joined_spec(prefix, e.name@)))
        } else {
            rest
        }
    }
}

/// The text of each string.
pub open spec fn texts(v: Seq<String>) -> Seq<Seq<char>> {
    v.map_values(|s: String| s@)
}

/// The text of each (identity, path) pair.
pub open spec fn pair_texts(v: Seq<(String, String)>) -> Seq<(Seq<char>, Seq<char>)> {
    v.map_values(|p: (String, String)| (p.0@, p.1@))
}

/// The files one level of the walk finds: for each directory of the level
/// in order, the files of its listing; a directory without a listing
/// (missing, or the empty directory) adds nothing.
pub open spec fn level_files(level: Seq<(Seq<char>, Seq<char>)>, listings: Seq<Option<Vec<DirEntry>>>) -> Seq<Seq<char>>
    decreases level.len(),
{
    if level.len() == 0 || listings.len() == 0 {
        Seq::empty()
    } else {
        level_files(level.drop_last(), listings.drop_last()) + match listings.last() {
            Some(es) => listing_files(level.last().1, es@),
            None => Seq::empty(),
        }
    }
}

/// The next level of the walk: the subdirectories of every listing of this
/// level, in order.
pub open spec fn level_dirs(level: Seq<(Seq<char>, Seq<char>)>, listings: Seq<Option<Vec<DirEntry>>>) -> Seq<(Seq<char>, Seq<char>)>
    decreases level.len(),
{
    if level.len() == 0 || listings.len() == 0 {
        Seq::empty()
    } else {
        level_dirs(level.drop_last(), listings.drop_last()) + match listings.last() {
            Some(es) => listing_dirs(level.last().1, es@),
            None => Seq::empty(),
        }
    }
}

/// A breadth-first walk over a library's tree that collects every file's
/// path (relative, without a leading `/`). The caller reads the listings of
/// the pending directories, one level at a time, and hands them to
/// `advance` until the walk is done.
pub struct PathWalk {
    /// The directories of the current level: content identity and path.
    pub frontier: Vec<(String, String)>,
    /// The file paths found so far.
    pub files: Vec<String>,
}

impl PathWalk {
    /// A walk that starts at the root directory with this identity.
    pub fn new(root_fs_id: &str) -> (w: Self)
        ensures
            pair_texts(w.frontier@) == seq![(root_fs_id@, Seq::<char>::empty())],
            w.files@.len() == 0,
    {
        let mut frontier: Vec<(String, String)> = Vec::new();
        frontier.push((owned(root_fs_id), String::new()));
        let w = PathWalk { frontier, files: Vec::new() };
        proof {
            assert(pair_texts(w.frontier@) =~= seq![(root_fs_id@, Seq::<char>::empty())]);
        }
        w
    }

    /// Whether no directory is left to read.
    pub fn is_done(&self) -> (b: bool)
        ensures
            b == (self.frontier@.len() == 0),
    {
        self.frontier.len() == 0
    }

    /// The identities of the directories whose listings the next step needs,
    /// in frontier order.
    pub fn pending_ids(&self) -> (ids: Vec<String>)
        ensures
            ids@.len() == self.frontier@.len(),
            forall|i: int| 0 <= i < ids@.len() ==> #[trigger] ids@[i]@ == self.frontier@[i].0@,
    {
        let mut ids: Vec<String> = Vec::new();
        let mut i: usize = 0;
        while i < self.frontier.len()
            invariant
                i <= self.frontier@.len(),
                ids@.len() == i,
                forall|k: int| 0 <= k < i ==> #[trigger] ids@[k]@ == self.frontier@[k].0@,
            decreases self.frontier@.len() - i,
        {
            ids.push(self.frontier[i].0.clone());
            i = i + 1;
        }
        ids
    }

    /// Take one level: `listings[i]` is the listing of the `i`-th pending
    /// directory, `None` when it has none. Its files join the result and its
    /// subdirectories become the next level.
    pub fn advance(&mut self, listings: &[Option<Vec<DirEntry>>])
        requires
            old(self).frontier@.len() == listings@.len(),
        ensures
            texts(final(self).files@) == texts(old(self).files@) + level_files(
                pair_texts(old(self).frontier@),
                listings@,
            ),
            pair_texts(final(self).frontier@) == level_dirs(pair_texts(old(self).frontier@), listings@),
    {
        let ghost level = pair_texts(self.frontier@);
        let ghost files0 = texts(self.files@);
        let mut files: Vec<String> = Vec::new();
        std::mem::swap(&mut files, &mut self.files);
        let mut next: Vec<(String, String)> = Vec::new();
        let mut i: usize = 0;
        while i < self.frontier.len()
            invariant
                i <= self.frontier@.len(),
                self.frontier@.len() == listings@.len(),
                level == pair_texts(self.frontier@),
                texts(files@) == files0 + level_files(level.take(i as int), listings@.take(i as int)),
                pair_texts(next@) == level_dirs(level.take(i as int), listings@.take(i as int)),
            decreases self.frontier@.len() - i,
        {
            let ghost files_before = texts(files@);
            let ghost next_before = pair_texts(next@);
            let prefix = &self.frontier[i].1;
            match &listings[i] {
                Some(entries) => {
                    let mut j: usize = 0;
                    while j < entries.len()
                        invariant
                            j <= entries@.len(),
                            texts(files@) == files_before + listing_files(prefix@, entries@.take(j as int)),
                            pair_texts(next@) == next_before + listing_dirs(prefix@, entries@.take(j as int)),
                        decreases entries@.len() - j,
                    {
                        let e = &entries[j];
                        proof {
                            assert(entries@.take(j + 1).drop_last() =~= entries@.take(j as int));
                            assert(entries@.take(j + 1).last() == entries@[j as int]);
                        }
                        let path = joined(prefix.as_str(), e.name.as_str());
                        if is_dir_mode(e.mode) {
                            let ghost before = next@;
                            next.push((e.id.clone(), path));
                            proof {
                                assert(pair_texts(next@) =~= pair_texts(before).push((e.id@, joined_spec(prefix@, e.name@))));
                            }
                        } else {
                            let ghost before = files@;
                            files.push(path);
                            proof {
                                assert(texts(files@) =~= texts(before).push(joined_spec(prefix@, e.name@)));
                            }
                        }
                        j = j + 1;
                    }
                    proof {
                        assert(entries@.take(entries@.len() as int) =~= entries@);
                    }
                },
                None => {},
            }
            proof {
                let lt = level.take(i + 1);
                let ls = listings@.take(i + 1);
                assert(lt.drop_last() =~= level.take(i as int));
                assert(ls.drop_last() =~= listings@.take(i as int));
                assert(lt.last() == level[i as int]);
                assert(ls.last() == listings@[i as int]);
                assert(level[i as int] == (self.frontier@[i as int].0@, self.frontier@[i as int].1@));
                assert(files0 + level_files(lt, ls) =~= files0 + level_files(level.take(i as int), listings@.take(i as int)) + match ls.last() {
                    Some(es) => listing_files(lt.last().1, es@),
                    None => Seq::empty(),
                });
                assert(level_dirs(lt, ls) =~= level_dirs(level.take(i as int), listings@.take(i as int)) + match ls.last() {
                    Some(es) => listing_dirs(lt.last().1, es@),
                    None => Seq::empty(),
                });
            }
            i = i + 1;
        }
        proof {
            assert(level.take(level.len() as int) =~= level);
            assert(listings@.take(listings@.len() as int) =~= listings@);
        }
        self.files = files;
        self.frontier = next;
    }
}

} // verus!
