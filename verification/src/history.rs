//! Library history: what a commit changed, the versions of one file, and
//! how a file is put back to one of them.

use vstd::prelude::*;
use crate::dirent::{DirEntry, S_IFDIR, S_IFREG, first_named, find_named};
use crate::text::{owned, push_str, str_eq};

verus! {

/// A file a commit added, removed or changed.
#[derive(Debug, Clone, PartialEq, Eq)]
pub struct FileChange {
    pub path: String,
    pub size: i64,
}

/// A directory a commit added or removed.
#[derive(Debug, Clone, PartialEq, Eq)]
pub struct DirChange {
    pub path: String,
}

/// What a commit changed.
#[derive(Debug, Clone, PartialEq, Eq)]
pub struct HistoryChangesResponse {
    pub new_files: Vec<FileChange>,
    pub deleted_files: Vec<FileChange>,
    pub modified_files: Vec<FileChange>,
    pub renamed_files: Vec<FileChange>,
    pub new_dirs: Vec<DirChange>,
    pub deleted_dirs: Vec<DirChange>,
}

/// One version of a file.
#[derive(Debug, Clone, PartialEq, Eq)]
pub struct FileHistoryItem {
    pub commit_id: String,
    pub path: String,
    pub size: i64,
    pub mtime: i64,
    pub last_modified_by: String,
    pub rev_file_id: String,
    pub rev_file_name: String,
    pub rev_desc: String,
    pub file_name: String,
    pub file_size: i64,
    pub file_mtime: i64,
    pub file_type: String,
}

/// The service the history endpoints go through.
pub struct HistoryService;

/// How a directory entry is read while collecting a tree's files.
#[derive(Debug, Clone, Copy, PartialEq, Eq)]
pub enum TreeEntryKind {
    /// A regular file, or anything with content.
    File,
    /// An empty-sized directory: descended into.
    Dir,
    /// Anything else (a symlink, say): skipped.
    Other,
}

/// How an entry is read: a regular-file mode or a positive size makes a
/// file; otherwise the directory mode makes a directory.
pub open spec fn tree_entry_kind_spec(mode: u32, size: i64) -> TreeEntryKind {
    if mode == S_IFREG || size > 0 {
        TreeEntryKind::File
    } else if mode == S_IFDIR {
        TreeEntryKind::Dir
    } else {
        TreeEntryKind::Other
    }
}

/// How an entry is read while collecting files.
pub fn tree_entry_kind(mode: u32, size: i64) -> (k: TreeEntryKind)
    ensures
        k == tree_entry_kind_spec(mode, size),
{
    if mode == S_IFREG || size > 0 {
        TreeEntryKind::File
    } else if mode == S_IFDIR {
        TreeEntryKind::Dir
    } else {
        TreeEntryKind::Other
    }
}

/// Whether `files` lists this path.
pub open spec fn lists_path(files: Seq<FileChange>, path: Seq<char>) -> bool {
    exists|k: int| 0 <= k < files.len() && #[trigger] files[k].path@ == path
}

/// The size `files` gives for a path: its first entry's.
pub open spec fn size_in(files: Seq<FileChange>, path: Seq<char>) -> Option<i64>
    decreases files.len(),
{
    if files.len() == 0 {
        None
    } else if files[0].path@ == path {
        Some(files[0].size)
    } else {
        size_in(files.drop_first(), path)
    }
}

/// The entries of `a` that `b` does not list, in order.
pub open spec fn not_in(a: Seq<FileChange>, b: Seq<FileChange>) -> Seq<FileChange>
    decreases a.len(),
{
    if a.len() == 0 {
        Seq::empty()
    } else {
        let rest = not_in(a.drop_last(), b);
        if size_in(b, a.last().path@) is None {
            rest.push(a.last())
        } else {
            rest
        }
    }
}

/// The entries of `a` that `b` lists with another size, in order.
pub open spec fn resized(a: Seq<FileChange>, b: Seq<FileChange>) -> Seq<FileChange>
    decreases a.len(),
{
    if a.len() == 0 {
        Seq::empty()
    } else {
        let rest = resized(a.drop_last(), b);
        match size_in(b, a.last().path@) {
            Some(s) => if s != a.last().size {
                rest.push(a.last())
            } else {
                rest
            },
            None => rest,
        }
    }
}

fn size_in_exec(files: &[FileChange], path: &str) -> (r: Option<i64>)
    ensures
        r == size_in(files@, path@),
{
    let mut i: usize = 0;
    proof {
        assert(files@.skip(0) =~= files@);
    }
    while i < files.len()
        invariant
            i <= files@.len(),
            size_in(files@, path@) == size_in(files@.skip(i as int), path@),
        decreases files@.len() - i,
    {
        proof {
            assert(files@.skip(i as int).drop_first() =~= files@.skip(i + 1));
            assert(files@.skip(i as int)[0] == files@[i as int]);
        }
        if str_eq(files[i].path.as_str(), path) {
            return Some(files[i].size);
        }
        i = i + 1;
    }
    proof {
        assert(files@.skip(i as int) =~= Seq::<FileChange>::empty());
    }
    None
}

/// What a commit changed, from the files of its tree and, unless it is
/// the first commit, of its parent's: files only the commit has are new,
/// files with another size are modified, files only the parent has are
/// deleted. Renames and directories are not reported.
pub fn history_changes(current: &[FileChange], parent: Option<&[FileChange]>) -> (r: HistoryChangesResponse)
    ensures
        match parent {
            Some(p) => r.new_files@ == not_in(current@, p@) && r.modified_files@ == resized(current@, p@)
                && r.deleted_files@ == not_in(p@, current@),
            None => r.new_files@ == current@ && r.modified_files@.len() == 0 && r.deleted_files@.len() == 0,
        },
        r.renamed_files@.len() == 0,
        r.new_dirs@.len() == 0,
        r.deleted_dirs@.len() == 0,
{
    let mut new_files: Vec<FileChange> = Vec::new();
    let mut modified_files: Vec<FileChange> = Vec::new();
    let mut deleted_files: Vec<FileChange> = Vec::new();
    match parent {
        Some(p) => {
            let mut i: usize = 0;
            proof {
                assert(current@.take(0) =~= Seq::<FileChange>::empty());
            }
            while i < current.len()
                invariant
                    i <= current@.len(),
                    new_files@ == not_in(current@.take(i as int), p@),
                    modified_files@ == resized(current@.take(i as int), p@),
                decreases current@.len() - i,
            {
                proof {
                    let t = current@.take(i + 1);
                    assert(t.drop_last() =~= current@.take(i as int));
                    assert(t.last() == current@[i as int]);
                }
                let c = &current[i];
                match size_in_exec(p, c.path.as_str()) {
                    None => new_files.push(FileChange { path: c.path.clone(), size: c.size }),
                    Some(s) => if s != c.size {
                        modified_files.push(FileChange { path: c.path.clone(), size: c.size });
                    },
                }
                i = i + 1;
            }
            proof {
                assert(current@.take(i as int) =~= current@);
            }
            let mut j: usize = 0;
            proof {
                assert(p@.take(0) =~= Seq::<FileChange>::empty());
            }
            while j < p.len()
                invariant
                    j <= p@.len(),
                    deleted_files@ == not_in(p@.take(j as int), current@),
                decreases p@.len() - j,
            {
                proof {
                    let t = p@.take(j + 1);
                    assert(t.drop_last() =~= p@.take(j as int));
                    assert(t.last() == p@[j as int]);
                }
                let d = &p[j];
                if size_in_exec(current, d.path.as_str()).is_none() {
                    deleted_files.push(FileChange { path: d.path.clone(), size: d.size });
                }
                j = j + 1;
            }
            proof {
                assert(p@.take(j as int) =~= p@);
            }
        },
        None => {
            let mut i: usize = 0;
            while i < current.len()
                invariant
                    i <= current@.len(),
                    new_files@ == current@.take(i as int),
                decreases current@.len() - i,
            {
                new_files.push(FileChange { path: current[i].path.clone(), size: current[i].size });
                i = i + 1;
                proof {
                    assert(new_files@ =~= current@.take(i as int));
                }
            }
            proof {
                assert(current@.take(i as int) =~= current@);
            }
        },
    }
    HistoryChangesResponse {
        new_files,
        deleted_files,
        modified_files,
        renamed_files: Vec::new(),
        new_dirs: Vec::new(),
        deleted_dirs: Vec::new(),
    }
}

/// What the walk over a file's commits does with the next one.
#[derive(Debug, Clone, Copy, PartialEq, Eq)]
pub enum WalkStep {
    /// Enough versions were found, or the file did not exist yet: done.
    Stop,
    /// The content did not change in this commit.
    Skip,
    /// A new version: record it.
    Record,
}

/// Whether the last recorded version has this content identity.
pub open spec fn same_version(last: Option<String>, id: Seq<char>) -> bool {
    last matches Some(l) && l@ == id
}

/// What the walk does with a commit: stop once `limit` versions are found
/// or where the file does not exist; skip unchanged content; else record.
pub open spec fn walk_step_spec(found: u64, limit: u64, last: Option<String>, fs_id: Option<Seq<char>>) -> WalkStep {
    if found >= limit {
        WalkStep::Stop
    } else {
        match fs_id {
            None => WalkStep::Stop,
            Some(id) => if same_version(last, id) {
                WalkStep::Skip
            } else {
                WalkStep::Record
            },
        }
    }
}

/// The walk over a file's commits, newest first.
pub struct VersionWalk {
    pub limit: u64,
    pub found: u64,
    pub last_fs_id: Option<String>,
}

impl VersionWalk {
    /// A walk that stops after `limit` versions.
    pub fn new(limit: u64) -> (w: Self)
        ensures
            w.limit == limit,
            w.found == 0,
            w.last_fs_id is None,
    {
        VersionWalk { limit, found: 0, last_fs_id: None }
    }

    /// Decide on the next commit, given the file's content identity there
    /// (`None` when the path does not resolve in it), and remember a
    /// recorded version.
    pub fn step(&mut self, fs_id: Option<&str>) -> (s: WalkStep)
        ensures
            s == walk_step_spec(
                old(self).found,
                old(self).limit,
                old(self).last_fs_id,
                match fs_id {
                    Some(x) => Some(x@),
                    None => None,
                },
            ),
            s == WalkStep::Record ==> final(self).found == old(self).found + 1 && same_version(
                final(self).last_fs_id,
                fs_id->0@,
            ),
            s != WalkStep::Record ==> final(self).found == old(self).found && final(self).last_fs_id == old(
                self,
            ).last_fs_id,
            final(self).limit == old(self).limit,
    {
        if self.found >= self.limit {
            return WalkStep::Stop;
        }
        let id = match fs_id {
            None => return WalkStep::Stop,
            Some(id) => id,
        };
        let same = match &self.last_fs_id {
            Some(l) => str_eq(l.as_str(), id),
            None => false,
        };
        if same {
            return WalkStep::Skip;
        }
        self.found = self.found + 1;
        self.last_fs_id = Some(owned(id));
        WalkStep::Record
    }
}

/// Whether `after` is `before` with entry `i` pointed at a historical
/// version: identity, size, time and modifier changed, nothing else.
pub open spec fn restored_at(
    before: Seq<DirEntry>,
    after: Seq<DirEntry>,
    i: int,
    target_fs_id: Seq<char>,
    size: i64,
    now: i64,
    modifier: Seq<char>,
) -> bool {
    &&& after.len() == before.len()
    &&& forall|k: int| 0 <= k < before.len() && k != i ==> #[trigger] after[k] == before[k]
    &&& after[i].id@ == target_fs_id
    &&& after[i].size == size
    &&& after[i].mtime == now
    &&& after[i].modifier@ == modifier
    &&& after[i].name == before[i].name
    &&& after[i].mode == before[i].mode
}

/// Point the first entry named `name` at a historical version.
pub fn restore_entry(d: &mut Vec<DirEntry>, name: &str, target_fs_id: &str, size: i64, now: i64, modifier: &str)
    ensures
        match first_named(old(d)@, name@) {
            Some(i) => restored_at(old(d)@, final(d)@, i, target_fs_id@, size, now, modifier@),
            None => final(d)@ == old(d)@,
        },
{
    match find_named(d.as_slice(), name) {
        Some(i) => {
            let e = DirEntry {
                id: owned(target_fs_id),
                mode: d[i].mode,
                modifier: owned(modifier),
                mtime: now,
                name: d[i].name.clone(),
                size,
            };
            d.set(i, e);
        },
        None => {},
    }
}

/// The description of a restore commit.
pub fn restore_description(name: &str, commit_id: &str) -> (s: String)
    ensures
        s@ == "Reverted "@ + name@ + " to version from "@ + commit_id@,
{
    let mut s = owned("Reverted ");
    push_str(&mut s, name);
    push_str(&mut s, " to version from ");
    push_str(&mut s, commit_id);
    s
}

} // verus!
