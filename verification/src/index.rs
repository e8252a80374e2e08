//! Bookkeeping of the full-text index pipeline: which files a pass reads,
//! how the outcome of each file is tallied, the order in which a backfill
//! walks the repositories, how scheduled work is split into runs, and who
//! may touch a library's index.
//!
//! Reading, extracting and writing documents is the pipeline's I/O; the
//! decisions around it are here.

use vstd::prelude::*;
use vstd::arithmetic::div_mod::lemma_fundamental_div_mod_converse;
use crate::error::AppError;
use crate::file::{path_leaf, path_leaf_spec};
use crate::text::{chars_of, copy_opt_string, decimal, owned, push_char, push_decimal, push_str, str_eq};

verus! {

/// How many files one submitted index run carries.
pub const BATCH_FILES: usize = 256;

/// One file the pipeline should look at.
#[derive(Debug, Clone, PartialEq, Eq)]
pub struct IndexTarget {
    /// Repo-absolute path with a leading `/`.
    pub path: String,
    /// The file's content identity, when the caller already knows it.
    pub fs_id: Option<String>,
}

impl IndexTarget {
    /// A target for `path`, with its content identity when known.
    pub fn new(path: String, fs_id: Option<String>) -> (t: Self)
        ensures
            t.path == path,
            t.fs_id == fs_id,
    {
        IndexTarget { path, fs_id }
    }

    /// A field-for-field copy.
    pub fn duplicate(&self) -> (t: Self)
        ensures
            t == *self,
    {
        IndexTarget { path: self.path.clone(), fs_id: copy_opt_string(&self.fs_id) }
    }
}

/// What one batch or pass did.
#[derive(Debug, Clone, Copy, Default, PartialEq, Eq)]
pub struct IndexCounts {
    /// Documents written with extracted text.
    pub indexed: u64,
    /// Files examined and deliberately not indexed.
    pub skipped: u64,
    /// Files whose read or extraction failed; the backfill retries them.
    pub failed: u64,
    /// Paths that no longer resolve.
    pub gone: u64,
}

/// The number of files a tally covers.
pub open spec fn counts_total(c: IndexCounts) -> int {
    c.indexed + c.skipped + c.failed + c.gone
}

/// What happened to one file.
#[derive(Debug, Clone, Copy, PartialEq, Eq)]
pub enum OneOutcome {
    /// Text was extracted and indexed.
    Indexed,
    /// The file was examined and is not indexable.
    Skipped,
    /// The read or extraction failed.
    Failed,
    /// The path no longer exists.
    Gone,
}

/// A tally with one more file of the given outcome.
pub open spec fn counts_with(c: IndexCounts, outcome: OneOutcome) -> IndexCounts {
    match outcome {
        OneOutcome::Indexed => IndexCounts { indexed: (c.indexed + 1) as u64, ..c },
        OneOutcome::Skipped => IndexCounts { skipped: (c.skipped + 1) as u64, ..c },
        OneOutcome::Failed => IndexCounts { failed: (c.failed + 1) as u64, ..c },
        OneOutcome::Gone => IndexCounts { gone: (c.gone + 1) as u64, ..c },
    }
}

impl IndexCounts {
    /// Every file the tally covers.
    pub fn total(&self) -> (t: u64)
        requires
            counts_total(*self) <= u64::MAX,
        ensures
            t == counts_total(*self),
    {
        self.indexed + self.skipped + self.failed + self.gone
    }

    /// Fold another tally into this one, field by field.
    pub fn add(&mut self, other: IndexCounts)
        requires
            old(self).indexed + other.indexed <= u64::MAX,
            old(self).skipped + other.skipped <= u64::MAX,
            old(self).failed + other.failed <= u64::MAX,
            old(self).gone + other.gone <= u64::MAX,
        ensures
            final(self).indexed == old(self).indexed + other.indexed,
            final(self).skipped == old(self).skipped + other.skipped,
            final(self).failed == old(self).failed + other.failed,
            final(self).gone == old(self).gone + other.gone,
            counts_total(*final(self)) == counts_total(*old(self)) + counts_total(other),
    {
        self.indexed = self.indexed + other.indexed;
        self.skipped = self.skipped + other.skipped;
        self.failed = self.failed + other.failed;
        self.gone = self.gone + other.gone;
    }

    /// Count one file's outcome.
    pub fn record(&mut self, outcome: OneOutcome)
        requires
            old(self).indexed < u64::MAX,
            old(self).skipped < u64::MAX,
            old(self).failed < u64::MAX,
            old(self).gone < u64::MAX,
        ensures
            *final(self) == counts_with(*old(self), outcome),
            counts_total(*final(self)) == counts_total(*old(self)) + 1,
    {
        match outcome {
            OneOutcome::Indexed => self.indexed = self.indexed + 1,
            OneOutcome::Skipped => self.skipped = self.skipped + 1,
            OneOutcome::Failed => self.failed = self.failed + 1,
            OneOutcome::Gone => self.gone = self.gone + 1,
        }
    }

    /// The tally of a batch whose repository has gone away: every file is gone.
    pub fn all_gone(files: u64) -> (c: Self)
        ensures
            c == (IndexCounts { indexed: 0, skipped: 0, failed: 0, gone: files }),
    {
        IndexCounts { indexed: 0, skipped: 0, failed: 0, gone: files }
    }
}

/// Why a batch is being indexed, which decides what "already done" means.
#[derive(Debug, Clone, Copy, PartialEq, Eq)]
pub enum IndexMode {
    /// The caller says these paths changed: a document a client pinned by
    /// hand is refreshed, an unchanged one is still skipped.
    Explicit,
    /// An automatic pass: a pinned document is never touched.
    Backfill,
    /// Rebuild: every file is re-read, whatever the index says.
    Force,
}

/// What the index holds for a path, as the pipeline reads it.
#[derive(Debug, Clone, Copy, PartialEq, Eq)]
pub struct DocState {
    /// A client supplied the text by hand.
    pub manual: bool,
    /// The document matches the file's content identity and needs no retry.
    pub current: bool,
}

/// Whether a pass must look at a target, given the mode, the target's known
/// content identity and what the index holds for its path.
pub open spec fn needs_work(mode: IndexMode, fs_id: Option<String>, state: Option<DocState>) -> bool {
    if mode == IndexMode::Force {
        true
    } else {
        match fs_id {
            None => true,
            Some(id) => id@.len() == 0 || match state {
                None => true,
                Some(s) => if mode == IndexMode::Explicit {
                    s.manual || !s.current
                } else {
                    !s.current
                },
            },
        }
    }
}

/// A pass reads every file the index has no document for, in every mode,
/// and every file whose content identity is unknown; a rebuild reads
/// everything; a document that is current is reread only when a client
/// pinned it and the caller says the path changed.
pub proof fn unindexed_files_are_always_read(mode: IndexMode, fs_id: Option<String>, s: DocState)
    ensures
        needs_work(mode, fs_id, None),
        fs_id is None ==> needs_work(mode, fs_id, Some(s)),
        needs_work(IndexMode::Force, fs_id, Some(s)),
        !s.current ==> needs_work(mode, fs_id, Some(s)),
        fs_id matches Some(id) && id@.len() > 0 && s.current ==> (needs_work(mode, fs_id, Some(s)) <==> (
        mode == IndexMode::Force || (mode == IndexMode::Explicit && s.manual))),
{
}

/// Every target of a batch that the index has no document for is read.
pub proof fn a_pass_reads_every_unindexed_target(
    targets: Seq<IndexTarget>,
    states: Seq<Option<DocState>>,
    mode: IndexMode,
    i: int,
)
    requires
        states.len() == targets.len(),
        0 <= i < targets.len(),
        states[i] is None,
    ensures
        work_of(targets, states, mode).contains(targets[i]),
    decreases targets.len(),
{
    let rest = work_of(targets.drop_last(), states.drop_last(), mode);
    if i == targets.len() - 1 {
        unindexed_files_are_always_read(mode, targets.last().fs_id, DocState { manual: false, current: false });
        assert(work_of(targets, states, mode) == rest.push(targets.last()));
        assert(rest.push(targets.last())[rest.len() as int] == targets[i]);
    } else {
        assert(targets.drop_last()[i] == targets[i]);
        assert(states.drop_last()[i] == states[i]);
        a_pass_reads_every_unindexed_target(targets.drop_last(), states.drop_last(), mode, i);
        let k = choose|k: int| 0 <= k < rest.len() && rest[k] == targets[i];
        if needs_work(mode, targets.last().fs_id, states[targets.len() - 1]) {
            assert(rest.push(targets.last())[k] == targets[i]);
        }
    }
}

/// Whether a pass must read this target.
pub fn needs_indexing(mode: IndexMode, target: &IndexTarget, state: Option<DocState>) -> (b: bool)
    ensures
        b == needs_work(mode, target.fs_id, state),
        state is None ==> b,
        target.fs_id is None ==> b,
        mode == IndexMode::Force ==> b,
{
    proof {
        if state is Some {
            unindexed_files_are_always_read(mode, target.fs_id, state->Some_0);
        } else {
            unindexed_files_are_always_read(mode, target.fs_id, DocState { manual: false, current: false });
        }
    }
    if let IndexMode::Force = mode {
        return true;
    }
    match &target.fs_id {
        None => true,
        Some(id) => {
            if id.as_str().is_empty() {
                return true;
            }
            match state {
                None => true,
                Some(s) => match mode {
                    IndexMode::Explicit => s.manual || !s.current,
                    _ => !s.current,
                },
            }
        },
    }
}

/// The targets a pass reads, in order: those `needs_work` keeps.
pub open spec fn work_of(targets: Seq<IndexTarget>, states: Seq<Option<DocState>>, mode: IndexMode) -> Seq<IndexTarget>
    decreases targets.len(),
{
    if targets.len() == 0 {
        Seq::empty()
    } else {
        let rest = work_of(targets.drop_last(), states.drop_last(), mode);
        if needs_work(mode, targets.last().fs_id, states[targets.len() - 1]) {
            rest.push(targets.last())
        } else {
            rest
        }
    }
}

/// The files of a batch that need reading; `states[i]` is what the index
/// holds for `targets[i]`.
pub fn select_work(targets: &[IndexTarget], states: &[Option<DocState>], mode: IndexMode) -> (work: Vec<IndexTarget>)
    requires
        states@.len() == targets@.len(),
    ensures
        work@ == work_of(targets@, states@, mode),
{
    let mut work: Vec<IndexTarget> = Vec::new();
    let mut i: usize = 0;
    proof {
        assert(targets@.take(0) =~= Seq::<IndexTarget>::empty());
    }
    while i < targets.len()
        invariant
            i <= targets@.len(),
            states@.len() == targets@.len(),
            work@ == work_of(targets@.take(i as int), states@.take(i as int), mode),
        decreases targets@.len() - i,
    {
        let t = &targets[i];
        let keep = needs_indexing(mode, t, states[i]);
        proof {
            let tt = targets@.take(i + 1);
            let ss = states@.take(i + 1);
            assert(tt.drop_last() =~= targets@.take(i as int));
            assert(ss.drop_last() =~= states@.take(i as int));
            assert(tt.last() == targets@[i as int]);
            assert(ss[tt.len() - 1] == states@[i as int]);
        }
        if keep {
            work.push(t.duplicate());
        }
        i = i + 1;
    }
    proof {
        assert(targets@.take(i as int) =~= targets@);
        assert(states@.take(i as int) =~= states@);
    }
    work
}

/// Everything a rebuild is given, it reads.
pub proof fn force_reads_everything(targets: Seq<IndexTarget>, states: Seq<Option<DocState>>)
    requires
        states.len() == targets.len(),
    ensures
        work_of(targets, states, IndexMode::Force) == targets,
    decreases targets.len(),
{
    if targets.len() > 0 {
        force_reads_everything(targets.drop_last(), states.drop_last());
        assert(targets.drop_last().push(targets.last()) =~= targets);
    }
}

/// A backfill pass never rereads a document a client pinned by hand, once
/// the target's content identity is known.
pub proof fn backfill_leaves_pinned_documents(mode: IndexMode, id: String, s: DocState)
    requires
        mode == IndexMode::Backfill,
        id@.len() > 0,
        s.manual,
        s.current,
    ensures
        !needs_work(mode, Some(id), Some(s)),
        needs_work(IndexMode::Explicit, Some(id), Some(s)),
{
}

// ─── Backfill order ──────────────────────────────────────────────────────

/// The position of the repository a backfill visits at `offset`, when the
/// pass starts from `cursor` among `n` repositories sorted by id.
pub open spec fn backfill_visit(cursor: int, offset: int, n: int) -> int {
    (cursor % n + offset) % n
}

proof fn lemma_visit_piecewise(cursor: int, offset: int, n: int)
    requires
        n > 0,
        cursor >= 0,
        0 <= offset < n,
    ensures
        0 <= cursor % n < n,
        backfill_visit(cursor, offset, n) == if cursor % n + offset < n {
            cursor % n + offset
        } else {
            cursor % n + offset - n
        },
{
    vstd::arithmetic::div_mod::lemma_mod_bound(cursor, n);
    let s = cursor % n;
    if s + offset < n {
        lemma_fundamental_div_mod_converse(s + offset, n, 0, s + offset);
    } else {
        lemma_fundamental_div_mod_converse(s + offset, n, 1, s + offset - n);
    }
}

/// The repository a backfill visits at `offset`.
pub fn backfill_index(cursor: usize, offset: usize, n: usize) -> (i: usize)
    requires
        n > 0,
        offset < n,
    ensures
        i == backfill_visit(cursor as int, offset as int, n as int),
        i < n,
{
    proof {
        lemma_visit_piecewise(cursor as int, offset as int, n as int);
    }
    let start = cursor % n;
    if offset < n - start {
        start + offset
    } else {
        offset - (n - start)
    }
}

/// Where the next pass starts after visiting position `index`: the
/// repository after it, wrapping round.
pub fn next_backfill_cursor(index: usize, n: usize) -> (c: usize)
    requires
        index < n,
    ensures
        c == (index + 1) % (n as int),
        c < n,
{
    proof {
        if index + 1 < n {
            lemma_fundamental_div_mod_converse(index + 1, n as int, 0, index + 1);
        } else {
            lemma_fundamental_div_mod_converse(index + 1, n as int, 1, 0);
        }
    }
    if index + 1 < n {
        index + 1
    } else {
        0
    }
}

/// Whether a full pass from `cursor` over `n` repositories reaches position `r`.
pub open spec fn backfill_reaches(cursor: int, n: int, r: int) -> bool {
    exists|o: int| 0 <= o < n && #[trigger] backfill_visit(cursor, o, n) == r
}

/// A backfill pass that runs to the end visits every repository exactly
/// once, whatever cursor it starts from.
pub proof fn backfill_visits_each_repo_once(cursor: int, n: int)
    requires
        n > 0,
        cursor >= 0,
    ensures
        forall|a: int, b: int|
            0 <= a < n && 0 <= b < n && a != b ==> #[trigger] backfill_visit(cursor, a, n)
                != #[trigger] backfill_visit(cursor, b, n),
        forall|r: int| 0 <= r < n ==> #[trigger] backfill_reaches(cursor, n, r),
{
    assert forall|a: int, b: int|
        0 <= a < n && 0 <= b < n && a != b implies #[trigger] backfill_visit(cursor, a, n)
            != #[trigger] backfill_visit(cursor, b, n) by {
        lemma_visit_piecewise(cursor, a, n);
        lemma_visit_piecewise(cursor, b, n);
    }
    assert forall|r: int| 0 <= r < n implies #[trigger] backfill_reaches(cursor, n, r) by {
        lemma_visit_piecewise(cursor, 0, n);
        let s = cursor % n;
        let o = if r >= s {
            r - s
        } else {
            r + n - s
        };
        lemma_visit_piecewise(cursor, o, n);
        assert(backfill_visit(cursor, o, n) == r);
    }
}

/// What a backfill pass reports.
#[derive(Debug, Clone, Copy, Default, PartialEq, Eq)]
pub struct BackfillReport {
    pub repos_scanned: u64,
    pub files_checked: u64,
    pub counts: IndexCounts,
}

impl BackfillReport {
    /// Account for one repository the pass looked into: it holds `files`
    /// files, and indexing them gave `counts`.
    pub fn add_repo(&mut self, files: u64, counts: IndexCounts)
        requires
            old(self).repos_scanned < u64::MAX,
            old(self).files_checked + files <= u64::MAX,
            old(self).counts.indexed + counts.indexed <= u64::MAX,
            old(self).counts.skipped + counts.skipped <= u64::MAX,
            old(self).counts.failed + counts.failed <= u64::MAX,
            old(self).counts.gone + counts.gone <= u64::MAX,
        ensures
            final(self).repos_scanned == old(self).repos_scanned + 1,
            final(self).files_checked == old(self).files_checked + files,
            final(self).counts.indexed == old(self).counts.indexed + counts.indexed,
            final(self).counts.skipped == old(self).counts.skipped + counts.skipped,
            final(self).counts.failed == old(self).counts.failed + counts.failed,
            final(self).counts.gone == old(self).counts.gone + counts.gone,
    {
        self.repos_scanned = self.repos_scanned + 1;
        self.files_checked = self.files_checked + files;
        self.counts.add(counts);
    }
}

// ─── Scheduling ──────────────────────────────────────────────────────────

/// Schedules index work; the runs themselves are submitted by the caller.
#[derive(Debug, Clone, Copy, PartialEq, Eq)]
pub struct IndexScheduler {
    enabled: bool,
}

/// The file ranges `[start, end)` of the runs that carry `len` files: runs of
/// `BATCH_FILES` in order, the last one holding what is left.
pub open spec fn runs_cover(runs: Seq<(usize, usize)>, len: int) -> bool {
    &&& runs.len() * 256 >= len
    &&& (runs.len() == 0 || (runs.len() - 1) * 256 < len)
    &&& forall|k: int| 0 <= k < runs.len() ==> #[trigger] run_at(runs[k], k, len)
}

/// Whether `run` is the `k`th run over `len` files.
pub open spec fn run_at(run: (usize, usize), k: int, len: int) -> bool {
    run.0 == k * 256 && run.1 == if (k + 1) * 256 <= len {
        (k + 1) * 256
    } else {
        len
    }
}

impl IndexScheduler {
    /// A scheduler that does something only when indexing is enabled.
    pub fn new(enabled: bool) -> (s: Self)
        ensures
            s.spec_enabled() == enabled,
    {
        IndexScheduler { enabled }
    }

    /// Whether scheduling can do anything.
    pub closed spec fn spec_enabled(&self) -> bool {
        self.enabled
    }

    /// Whether scheduling can do anything; callers skip building the file
    /// list when it cannot.
    pub fn is_enabled(&self) -> (b: bool)
        ensures
            b == self.spec_enabled(),
    {
        self.enabled
    }

    /// The runs to submit for `len` targets: none when scheduling is off,
    /// otherwise consecutive ranges of at most `BATCH_FILES` files.
    pub fn runs(&self, len: usize) -> (runs: Vec<(usize, usize)>)
        ensures
            !self.spec_enabled() ==> runs@.len() == 0,
            self.spec_enabled() ==> runs_cover(runs@, len as int),
    {
        if !self.enabled {
            return Vec::new();
        }
        index_runs(len)
    }
}

/// Split `len` files into runs of at most `BATCH_FILES`.
pub fn index_runs(len: usize) -> (runs: Vec<(usize, usize)>)
    ensures
        runs_cover(runs@, len as int),
{
    let mut runs: Vec<(usize, usize)> = Vec::new();
    let mut start: usize = 0;
    while start < len
        invariant
            start <= len,
            start == if runs@.len() * 256 <= len {
                (runs@.len() * 256) as int
            } else {
                len as int
            },
            runs@.len() == 0 || (runs@.len() - 1) * 256 < len,
            forall|k: int| 0 <= k < runs@.len() ==> #[trigger] run_at(runs@[k], k, len as int),
        decreases len - start,
    {
        let end = if len - start > BATCH_FILES {
            start + BATCH_FILES
        } else {
            len
        };
        let ghost before = runs@;
        runs.push((start, end));
        proof {
            let k = before.len() as int;
            assert(start == k * 256);
            assert(runs@[k] == (start, end));
            assert(run_at(runs@[k], k, len as int));
            assert forall|j: int| 0 <= j < runs@.len() implies #[trigger] run_at(runs@[j], j, len as int) by {
                if j < k {
                    assert(runs@[j] == before[j]);
                }
            }
        }
        start = end;
    }
    runs
}

/// The summary a submitted run carries: `Index <n> file(s)`.
pub fn index_run_summary(files: usize) -> (s: String)
    ensures
        s@ == "Index "@ + decimal(files as nat) + " file(s)"@,
{
    let mut s = String::new();
    push_str(&mut s, "Index ");
    push_decimal(&mut s, files as u64);
    push_str(&mut s, " file(s)");
    s
}

// ─── Directory moves ─────────────────────────────────────────────────────

/// Whether `paths` holds `p`.
pub open spec fn holds_path(paths: Seq<String>, p: Seq<char>) -> bool {
    exists|i: int| 0 <= i < paths.len() && #[trigger] paths[i]@ == p
}

/// The old paths whose documents go once a directory moved: those the new
/// subtree does not hold again, in order.
pub open spec fn stale_paths_of(old_paths: Seq<String>, new_paths: Seq<String>) -> Seq<String>
    decreases old_paths.len(),
{
    if old_paths.len() == 0 {
        Seq::empty()
    } else {
        let rest = stale_paths_of(old_paths.drop_last(), new_paths);
        if holds_path(new_paths, old_paths.last()@) {
            rest
        } else {
            rest.push(old_paths.last())
        }
    }
}

fn holds_path_exec(paths: &[String], p: &str) -> (b: bool)
    ensures
        b == holds_path(paths@, p@),
{
    let mut i: usize = 0;
    while i < paths.len()
        invariant
            i <= paths@.len(),
            forall|k: int| 0 <= k < i ==> #[trigger] paths@[k]@ != p@,
        decreases paths@.len() - i,
    {
        if str_eq(paths[i].as_str(), p) {
            return true;
        }
        i = i + 1;
    }
    false
}

/// The documents to drop after a directory moved: a path present in both
/// trees was just scheduled at its new place and must stay.
pub fn stale_index_paths(old_paths: &[String], new_paths: &[String]) -> (stale: Vec<String>)
    ensures
        stale@ == stale_paths_of(old_paths@, new_paths@),
{
    let mut stale: Vec<String> = Vec::new();
    let mut i: usize = 0;
    proof {
        assert(old_paths@.take(0) =~= Seq::<String>::empty());
    }
    while i < old_paths.len()
        invariant
            i <= old_paths@.len(),
            stale@ == stale_paths_of(old_paths@.take(i as int), new_paths@),
        decreases old_paths@.len() - i,
    {
        let p = &old_paths[i];
        proof {
            let t = old_paths@.take(i + 1);
            assert(t.drop_last() =~= old_paths@.take(i as int));
            assert(t.last() == old_paths@[i as int]);
        }
        if !holds_path_exec(new_paths, p.as_str()) {
            stale.push(p.clone());
        }
        i = i + 1;
    }
    proof {
        assert(old_paths@.take(i as int) =~= old_paths@);
    }
    stale
}

/// A path made repo-absolute: kept when it starts with `/`, else given one.
pub open spec fn absolute_path_spec(path: Seq<char>) -> Seq<char> {
    if path.len() > 0 && path[0] == '/' {
        path
    } else {
        seq!['/'] + path
    }
}

/// Where text a client supplied for a file is indexed: the repo-absolute
/// path and the file name after its last `/`. Such a document is pinned at
/// the manual extractor version, so a backfill never replaces it.
pub fn manual_index_location(path: &str) -> (r: (String, String))
    ensures
        r.0@ == absolute_path_spec(path@),
        r.1@ == path_leaf_spec(absolute_path_spec(path@), absolute_path_spec(path@)),
{
    let v = chars_of(path);
    let full = if v.len() > 0 && v[0] == '/' {
        owned(path)
    } else {
        let mut f = String::new();
        push_char(&mut f, '/');
        push_str(&mut f, path);
        proof {
            assert(f@ =~= seq!['/'] + path@);
        }
        f
    };
    let name = path_leaf(full.as_str(), full.as_str());
    (full, name)
}

// ─── Who may touch an index ──────────────────────────────────────────────

/// Reading a library's index: its owner or a member.
pub fn check_repo_access(owner_id: i32, user_id: i32, is_member: bool) -> (r: Result<(), AppError>)
    ensures
        r is Ok <==> (owner_id == user_id || is_member),
        r is Err ==> r == Err::<(), AppError>(AppError::Forbidden),
{
    if owner_id != user_id && !is_member {
        return Err(AppError::Forbidden);
    }
    Ok(())
}

/// Heavy index work (a rebuild): the library's owner or a server admin.
/// `user_is_admin` is `None` when the user does not exist.
pub fn check_repo_admin(owner_id: i32, user_id: i32, user_is_admin: Option<bool>) -> (r: Result<(), AppError>)
    ensures
        r is Ok <==> (owner_id == user_id || user_is_admin == Some(true)),
        r is Err ==> r == Err::<(), AppError>(AppError::Forbidden),
{
    if owner_id != user_id {
        match user_is_admin {
            Some(true) => {},
            _ => return Err(AppError::Forbidden),
        }
    }
    Ok(())
}

} // verus!
