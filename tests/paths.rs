use blobget::error::GetError;
use blobget::path::{get_export_path, validate_path_component};

#[test]
fn two_entries_share_a_directory() {
    assert_eq!(get_export_path("/tmp/out", "a/b.txt"), Ok("/tmp/out/a/b.txt".to_string()));
    assert_eq!(get_export_path("/tmp/out", "a/c.txt"), Ok("/tmp/out/a/c.txt".to_string()));
}

#[test]
fn empty_segments_are_skipped() {
    assert_eq!(get_export_path("/r", "/a//b/"), Ok("/r/a/b".to_string()));
    assert_eq!(get_export_path("/r", ""), Ok("/r".to_string()));
}

#[test]
fn backslash_in_segment_is_refused() {
    assert_eq!(get_export_path("/r", "a\\b"), Err(GetError::PathViolation));
    assert_eq!(get_export_path("/r", "ok/x\\..\\y"), Err(GetError::PathViolation));
}

#[test]
fn parent_segment_is_refused() {
    assert_eq!(get_export_path("/r", "../etc/passwd"), Err(GetError::PathViolation));
    assert_eq!(get_export_path("/r", "a/.."), Err(GetError::PathViolation));
    assert_eq!(get_export_path("/r", "a/..b/c"), Ok("/r/a/..b/c".to_string()));
}

#[test]
fn components_are_validated() {
    assert_eq!(validate_path_component("file.txt"), Ok(()));
    assert_eq!(validate_path_component("a/b"), Err(GetError::PathViolation));
    assert_eq!(validate_path_component("a\\b"), Err(GetError::PathViolation));
    assert_eq!(validate_path_component(".."), Err(GetError::PathViolation));
    assert_eq!(validate_path_component("."), Ok(()));
}
