use nanofile_service::error::AppError;
use nanofile_service::index::{
    backfill_index, check_repo_access, manual_index_location, check_repo_admin, index_run_summary, index_runs,
    needs_indexing, next_backfill_cursor, select_work, stale_index_paths, BackfillReport, DocState,
    IndexCounts, IndexMode, IndexScheduler, IndexTarget, OneOutcome, BATCH_FILES,
};

fn target(path: &str, fs_id: Option<&str>) -> IndexTarget {
    IndexTarget::new(path.to_string(), fs_id.map(|s| s.to_string()))
}

#[test]
fn which_files_a_pass_reads() {
    let t = target("/a", Some("f1"));
    let pinned = Some(DocState { manual: true, current: true });
    let current = Some(DocState { manual: false, current: true });
    let stale = Some(DocState { manual: false, current: false });
    assert!(needs_indexing(IndexMode::Force, &t, current));
    assert!(!needs_indexing(IndexMode::Backfill, &t, current));
    assert!(needs_indexing(IndexMode::Backfill, &t, stale));
    assert!(!needs_indexing(IndexMode::Backfill, &t, pinned));
    assert!(needs_indexing(IndexMode::Explicit, &t, pinned));
    assert!(needs_indexing(IndexMode::Backfill, &t, None));
    assert!(needs_indexing(IndexMode::Backfill, &target("/b", None), current));
    assert!(needs_indexing(IndexMode::Backfill, &target("/b", Some("")), current));
}

#[test]
fn force_reads_every_target_and_backfill_keeps_order() {
    let ts = vec![target("/a", Some("1")), target("/b", Some("2")), target("/c", Some("3"))];
    let states = vec![
        Some(DocState { manual: false, current: true }),
        None,
        Some(DocState { manual: true, current: false }),
    ];
    assert_eq!(select_work(&ts, &states, IndexMode::Force).len(), 3);
    let work = select_work(&ts, &states, IndexMode::Backfill);
    assert_eq!(work.iter().map(|t| t.path.as_str()).collect::<Vec<_>>(), vec!["/b", "/c"]);
}

#[test]
fn tallies_add_up() {
    let mut c = IndexCounts::default();
    c.record(OneOutcome::Indexed);
    c.record(OneOutcome::Skipped);
    c.record(OneOutcome::Failed);
    c.record(OneOutcome::Gone);
    c.record(OneOutcome::Indexed);
    assert_eq!(c.total(), 5);
    assert_eq!(c.indexed, 2);
    let mut d = IndexCounts::all_gone(4);
    assert_eq!(d, IndexCounts { indexed: 0, skipped: 0, failed: 0, gone: 4 });
    d.add(c);
    assert_eq!(d.total(), 9);
    let mut r = BackfillReport::default();
    r.add_repo(7, c);
    r.add_repo(2, IndexCounts::all_gone(2));
    assert_eq!((r.repos_scanned, r.files_checked, r.counts.gone), (2, 9, 3));
}

#[test]
fn a_backfill_visits_every_repository_once_from_any_cursor() {
    for n in 1..6usize {
        for cursor in 0..12usize {
            let mut seen: Vec<usize> = (0..n).map(|o| backfill_index(cursor, o, n)).collect();
            assert_eq!(seen[0], cursor % n);
            seen.sort();
            assert_eq!(seen, (0..n).collect::<Vec<_>>());
        }
    }
    assert_eq!(next_backfill_cursor(2, 5), 3);
    assert_eq!(next_backfill_cursor(4, 5), 0);
}

#[test]
fn runs_split_the_work() {
    assert!(index_runs(0).is_empty());
    assert_eq!(index_runs(10), vec![(0, 10)]);
    assert_eq!(
        index_runs(2 * BATCH_FILES + 1),
        vec![(0, 256), (256, 512), (512, 513)]
    );
    assert!(IndexScheduler::new(false).runs(10).is_empty());
    assert!(IndexScheduler::new(true).is_enabled());
    assert_eq!(IndexScheduler::new(true).runs(300), vec![(0, 256), (256, 300)]);
    assert_eq!(index_run_summary(3), "Index 3 file(s)");
}

#[test]
fn stale_paths_and_access() {
    let old = vec!["/a/x".to_string(), "/a/y".to_string()];
    let new = vec!["/a/y".to_string(), "/b/x".to_string()];
    assert_eq!(stale_index_paths(&old, &new), vec!["/a/x".to_string()]);
    assert_eq!(check_repo_access(1, 1, false), Ok(()));
    assert_eq!(check_repo_access(1, 2, true), Ok(()));
    assert_eq!(check_repo_access(1, 2, false), Err(AppError::Forbidden));
    assert_eq!(check_repo_admin(1, 2, Some(true)), Ok(()));
    assert_eq!(check_repo_admin(1, 2, Some(false)), Err(AppError::Forbidden));
    assert_eq!(check_repo_admin(1, 2, None), Err(AppError::Forbidden));
}

#[test]
fn supplied_text_is_indexed_at_an_absolute_path() {
    assert_eq!(manual_index_location("docs/a.pdf"), ("/docs/a.pdf".to_string(), "a.pdf".to_string()));
    assert_eq!(manual_index_location("/b.bin"), ("/b.bin".to_string(), "b.bin".to_string()));
    assert_eq!(manual_index_location(""), ("/".to_string(), "".to_string()));
}
