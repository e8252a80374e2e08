use nanofile_service::dirent::DirEntry;
use nanofile_service::error::AppError;
use nanofile_service::metadata::{
    check_tag_in_repo, file_info_of, file_tag_ids, file_tags, metadata_flags, path_from_record_id,
    record_fields, record_id_from_path, record_location, tag_inputs, tag_page, tag_rename_allowed,
    tag_update_id, tag_update_values, FieldValue, FileInfo, TagRequest, TagRow,
};
use nanofile_service::text::parse_i32;

#[test]
fn record_ids_are_the_hex_of_the_path() {
    assert_eq!(record_id_from_path("/a b"), "2f612062");
    assert_eq!(record_id_from_path("/é"), "2fc3a9");
    assert_eq!(path_from_record_id("2fc3a9"), Ok("/é".to_string()));
}

#[test]
fn record_ids_round_trip() {
    for p in ["/", "/docs/report.pdf", "/Fotos/été 2024/IMG_1.jpg"] {
        assert_eq!(path_from_record_id(&record_id_from_path(p)), Ok(p.to_string()));
    }
}

#[test]
fn bad_record_ids_are_refused() {
    let bad = Err(AppError::BadRequest("invalid record id".to_string()));
    assert_eq!(path_from_record_id(""), bad);
    assert_eq!(path_from_record_id("2f6"), bad);
    assert_eq!(path_from_record_id("2F61"), bad);
    assert_eq!(path_from_record_id("zz"), bad);
    assert_eq!(path_from_record_id("6162"), bad);
    assert_eq!(path_from_record_id("2fff"), bad);
}

#[test]
fn record_locations() {
    assert_eq!(record_location("", "a.txt"), ("/".to_string(), "/a.txt".to_string()));
    assert_eq!(record_location("/d", "a.txt"), ("/d".to_string(), "/d/a.txt".to_string()));
    assert_eq!(metadata_flags(None), (true, true));
    assert_eq!(metadata_flags(Some((Some(false), None))), (false, true));
    assert_eq!(metadata_flags(Some((None, Some(false)))), (true, false));
}

#[test]
fn record_updates_skip_reserved_fields() {
    let data = vec![
        ("_id".to_string(), FieldValue::Text("x".to_string())),
        ("_description".to_string(), FieldValue::Text("hello".to_string())),
        ("_tags".to_string(), FieldValue::Json("[]".to_string())),
        ("_rate".to_string(), FieldValue::Json("3".to_string())),
        ("_status".to_string(), FieldValue::Null),
    ];
    assert_eq!(
        record_fields(&data),
        vec![
            ("_description".to_string(), Some("hello".to_string())),
            ("_rate".to_string(), Some("3".to_string())),
            ("_status".to_string(), None),
        ]
    );
}

#[test]
fn created_tags_need_a_name_and_default_their_color() {
    let items = vec![
        TagRequest { name: Some("work".to_string()), color: None },
        TagRequest { name: Some("  ".to_string()), color: Some("#fff".to_string()) },
        TagRequest { name: None, color: Some("#000".to_string()) },
        TagRequest { name: Some("home".to_string()), color: Some("#123456".to_string()) },
    ];
    let made = tag_inputs(&items);
    assert_eq!(made.len(), 2);
    assert_eq!((made[0].name.as_str(), made[0].color.as_str()), ("work", "#e6e6e6"));
    assert_eq!((made[1].name.as_str(), made[1].color.as_str()), ("home", "#123456"));
}

#[test]
fn tag_listing_windows() {
    assert_eq!(tag_page(10, 2, 3), (2, 5));
    assert_eq!(tag_page(10, 8, 5), (8, 10));
    assert_eq!(tag_page(10, 12, 5), (10, 10));
    assert_eq!(tag_page(10, 0, usize::MAX), (0, 10));
}

#[test]
fn ids_parse_as_i32() {
    assert_eq!(parse_i32("42"), Some(42));
    assert_eq!(parse_i32("+7"), Some(7));
    assert_eq!(parse_i32("-2147483648"), Some(i32::MIN));
    assert_eq!(parse_i32("2147483648"), None);
    assert_eq!(parse_i32("-"), None);
    assert_eq!(parse_i32(" 1"), None);
    assert_eq!(parse_i32(""), None);
}

#[test]
fn tag_updates_are_checked() {
    assert_eq!(tag_update_id(Some("5"), true), Some(5));
    assert_eq!(tag_update_id(Some("5"), false), None);
    assert_eq!(tag_update_id(Some("x"), true), None);
    assert_eq!(tag_update_values(None, None), (String::new(), "#e6e6e6".to_string()));
    assert_eq!(tag_rename_allowed(None, "r", None, 5), Ok(false));
    assert_eq!(tag_rename_allowed(Some("other"), "r", None, 5), Ok(false));
    assert_eq!(tag_rename_allowed(Some("r"), "r", Some(5), 5), Ok(true));
    assert_eq!(
        tag_rename_allowed(Some("r"), "r", Some(6), 5),
        Err(AppError::BadRequest("repo tag already exist".to_string()))
    );
    assert_eq!(check_tag_in_repo(Some("r"), "r"), Ok(()));
    assert_eq!(
        check_tag_in_repo(Some("q"), "r"),
        Err(AppError::NotFound("tag not found".to_string()))
    );
}

#[test]
fn file_tag_ids_must_name_the_librarys_tags() {
    let valid = vec![1, 2, 3];
    assert_eq!(file_tag_ids(&[Some("2".to_string()), Some("3".to_string())], &valid), Ok(vec![2, 3]));
    assert_eq!(file_tag_ids(&[], &valid), Ok(vec![]));
    let bad = Err(AppError::BadRequest("invalid tag id".to_string()));
    assert_eq!(file_tag_ids(&[Some("9".to_string())], &valid), bad);
    assert_eq!(file_tag_ids(&[None], &valid), bad);
    assert_eq!(file_tag_ids(&[Some("two".to_string())], &valid), bad);
}

#[test]
fn a_files_tags_follow_its_links() {
    let tags = vec![
        TagRow { id: 3, name: "c".to_string() },
        TagRow { id: -1, name: "neg".to_string() },
    ];
    let shown = file_tags(&[3, 9, -1], &tags);
    assert_eq!(shown.len(), 2);
    assert_eq!((shown[0].row_id.as_str(), shown[0].display_value.as_str()), ("3", "c"));
    assert_eq!((shown[1].row_id.as_str(), shown[1].display_value.as_str()), ("-1", "neg"));
}

#[test]
fn file_info_comes_from_the_parent_listing() {
    let entries = vec![
        DirEntry { id: "x".into(), mode: 16384, modifier: "m".into(), mtime: 1, name: "sub".into(), size: 0 },
        DirEntry { id: "y".into(), mode: 33188, modifier: "bob".into(), mtime: 7, name: "f.txt".into(), size: 12 },
    ];
    assert_eq!(
        file_info_of("/f.txt", Some(&entries), "f.txt"),
        Some(FileInfo { size: 12, mtime: 7, modifier: "bob".to_string() })
    );
    assert_eq!(file_info_of("/sub", Some(&entries), "sub"), None);
    assert_eq!(file_info_of("/nope", Some(&entries), "nope"), None);
    assert_eq!(file_info_of("/", Some(&entries), ""), None);
    assert_eq!(file_info_of("/f.txt", None, "f.txt"), None);
}
