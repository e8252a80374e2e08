use nanofile_service::thumbnail::{
    cache_file_name, cache_file_size, cached_thumbnail_is_fresh, choose_thumbnail_route,
    classify_cache_entry, cleanup_path, file_name_of, is_retained_size, legacy_cache_file_name,
    legacy_purge_marker, max_ffmpeg_source, normalize_path_for_file, normalize_thumbnail_path,
    retained_thumbnail_sizes, thumbnail_key, MediaKind, PurgeVerdict, ThumbnailCachePurge,
    ThumbnailRoute, MAX_THUMBNAIL_SOURCE,
};
use nanofile_service::error::AppError;

#[test]
fn cache_file_size_reads_both_naming_schemes() {
    assert_eq!(
        cache_file_size("thumb_e49c1f0fdb7fdd0c0627136cf973f6ff_48.png"),
        Some(48)
    );
    assert_eq!(cache_file_size("thumb_ab_640.jpg"), Some(640));
    assert_eq!(cache_file_size("Field_Photos_pine_256.png"), Some(256));
    assert_eq!(cache_file_size("thumb_ab_48"), Some(48));
    assert_eq!(cache_file_size("notes.txt"), None);
    assert_eq!(cache_file_size("thumb_ab_.png"), None);
    assert_eq!(cache_file_size(&legacy_purge_marker()), None);
}

#[test]
fn marker_names_the_retained_sizes() {
    assert_eq!(legacy_purge_marker(), ".legacy_sizes_purged_48_640");
}

#[test]
fn retained_sizes_are_the_two_the_ui_requests() {
    assert_eq!(retained_thumbnail_sizes(), vec![48, 640]);
    assert!(is_retained_size(48));
    assert!(is_retained_size(640));
    assert!(!is_retained_size(256));
}

#[test]
fn the_purge_classifies_each_entry() {
    assert_eq!(classify_cache_entry(false, "thumb_ab_256.png"), PurgeVerdict::Nested);
    assert_eq!(classify_cache_entry(true, "notes.txt"), PurgeVerdict::Unrecognized);
    assert_eq!(classify_cache_entry(true, "thumb_ab_48.png"), PurgeVerdict::Retained);
    assert_eq!(classify_cache_entry(true, "thumb_ab_256.png"), PurgeVerdict::Stale);
}

#[test]
fn the_purge_report_counts_what_it_did() {
    let mut p = ThumbnailCachePurge::started();
    assert!(!p.account(PurgeVerdict::Stale, Some(4096)));
    assert!(p.account(PurgeVerdict::Stale, None));
    assert!(p.account(PurgeVerdict::Retained, None));
    assert!(p.account(PurgeVerdict::Unrecognized, None));
    p.note_dir_removed();
    assert_eq!(p.files_removed, 1);
    assert_eq!(p.bytes_freed, 4096);
    assert_eq!(p.unrecognized, 1);
    assert_eq!(p.dirs_removed, 1);
    assert_eq!(
        p.summary(),
        "removed 1 cache files (4 KiB) for sizes the UI no longer requests, 1 empty directories, 1 unrecognized names left alone"
    );
    assert_eq!(ThumbnailCachePurge::skipped().summary(), "already purged, skipped");
}

#[test]
fn routes_follow_the_kind_and_the_size_caps() {
    assert_eq!(
        choose_thumbnail_route(true, false, false, false, MAX_THUMBNAIL_SOURCE),
        Ok(ThumbnailRoute::Decode)
    );
    assert!(choose_thumbnail_route(true, false, false, false, MAX_THUMBNAIL_SOURCE + 1).is_err());
    assert_eq!(
        choose_thumbnail_route(false, false, true, false, 1000),
        Ok(ThumbnailRoute::Media(MediaKind::Video))
    );
    assert_eq!(
        choose_thumbnail_route(false, true, false, false, 1000),
        Ok(ThumbnailRoute::Media(MediaKind::Image))
    );
    assert_eq!(
        choose_thumbnail_route(false, false, false, true, 1000),
        Ok(ThumbnailRoute::Media(MediaKind::Audio))
    );
    assert_eq!(max_ffmpeg_source(MediaKind::Image), 268435456);
    assert_eq!(max_ffmpeg_source(MediaKind::Video), 536870912);
    assert!(choose_thumbnail_route(false, true, false, false, 268435457).is_err());
    assert_eq!(
        choose_thumbnail_route(false, false, false, false, 1),
        Err(AppError::NotFound("thumbnail not available".to_string()))
    );
}

#[test]
fn a_cached_thumbnail_is_fresh_only_when_newer_and_present() {
    assert!(cached_thumbnail_is_fresh(10, 10, true));
    assert!(!cached_thumbnail_is_fresh(9, 10, true));
    assert!(!cached_thumbnail_is_fresh(11, 10, false));
}

#[test]
fn paths_and_names() {
    assert_eq!(normalize_thumbnail_path(""), "/");
    assert_eq!(normalize_thumbnail_path("a/b.png"), "/a/b.png");
    assert_eq!(normalize_thumbnail_path("/a/b.png"), "/a/b.png");
    assert_eq!(cleanup_path(""), Some("/".to_string()));
    assert_eq!(cleanup_path("/x"), Some("/x".to_string()));
    assert_eq!(cleanup_path("x"), None);
    assert_eq!(file_name_of("/a/b.png"), "b.png");
    assert_eq!(file_name_of("plain"), "file");
}

#[test]
fn the_key_is_a_hash_prefix_of_repo_and_path() {
    let key = thumbnail_key("repo-1", "/photos/a.jpg");
    assert_eq!(key, "thumb_98d80866db5ab8ddb3c610080660e56a");
    assert_ne!(key, thumbnail_key("repo-1", "/photos/b.jpg"));
    assert_eq!(cache_file_name(&key, 48, "png"), format!("{key}_48.png"));
}

#[test]
fn the_older_scheme_names_by_path() {
    assert_eq!(normalize_path_for_file("/Field/Photos/pine/"), "Field_Photos_pine");
    assert_eq!(legacy_cache_file_name("/Field/Photos/pine", 256), "Field_Photos_pine_256.png");
    assert_eq!(cache_file_size(&legacy_cache_file_name("/a/b", 256)), Some(256));
}
