//! Upload naming: sanitizing, decorating, temporary names, and the
//! exclusive-publish discipline.

use bulgur_cloud::kv::MemoryTable;
use bulgur_cloud::upload::{
    make_decorated, part_file_name, publish_exclusive, resolve_upload_name,
    sanitize_filename_str, split_name, UploadNamer, MAX_RENAME_ATTEMPTS,
};

#[test]
fn split_name_takes_last_dot() {
    assert_eq!(split_name("test.txt"), ("test".to_string(), ".txt".to_string()));
    assert_eq!(split_name("archive.tar.gz"), ("archive.tar".to_string(), ".gz".to_string()));
    assert_eq!(split_name("README"), ("README".to_string(), "".to_string()));
    assert_eq!(split_name(".bashrc"), (".bashrc".to_string(), "".to_string()));
}

#[test]
fn decorated_name_inserts_counter_before_extension() {
    assert_eq!(make_decorated("test", 1, ".txt"), "test (1).txt");
    assert_eq!(make_decorated("test", 42, ".txt"), "test (42).txt");
    assert_eq!(make_decorated("README", 7, ""), "README (7)");
    assert_eq!(make_decorated("big", 4294967295, ".bin"), "big (4294967295).bin");
    assert_eq!(make_decorated("zero", 0, ".z"), "zero (0).z");
}

#[test]
fn part_name_is_hidden_and_nonced() {
    assert_eq!(part_file_name("f.txt", "abcd1234"), ".f.txt.abcd1234.part");
}

#[test]
fn sanitize_strips_separators_and_dots() {
    assert_eq!(sanitize_filename_str("a/b"), "ab");
    assert_eq!(sanitize_filename_str("../../etc/passwd"), "....etcpasswd");
    assert_eq!(sanitize_filename_str(".."), "");
    assert_eq!(sanitize_filename_str("cat photo.jpg"), "cat photo.jpg");
}

#[test]
fn namer_uses_sanitized_declared_name() {
    let namer = UploadNamer::new(Some("notes.txt"));
    assert_eq!(namer.desired, "notes.txt");
    assert_eq!(namer.candidate(0).unwrap(), "notes.txt");
    assert_eq!(namer.candidate(1).unwrap(), "notes (1).txt");
    assert_eq!(namer.candidate(99).unwrap(), "notes (99).txt");
    assert!(namer.candidate(MAX_RENAME_ATTEMPTS).is_some());
    assert!(namer.candidate(MAX_RENAME_ATTEMPTS + 1).is_none());
}

#[test]
fn namer_synthesizes_name_when_none_declared() {
    let namer = UploadNamer::new(None);
    assert_eq!(namer.desired.len(), 21);
    let namer = UploadNamer::new(Some("/////"));
    assert!(!namer.desired.is_empty());
    assert!(!namer.desired.contains('/'));
}

#[test]
fn publish_is_exclusive() {
    let mut dir: MemoryTable<()> = MemoryTable::new();
    assert!(publish_exclusive(&mut dir, "test.txt"));
    assert!(!publish_exclusive(&mut dir, "test.txt"));
    assert!(publish_exclusive(&mut dir, "other.txt"));
}

#[test]
fn same_name_uploads_get_distinct_names() {
    let mut dir: MemoryTable<()> = MemoryTable::new();
    let namer = UploadNamer::new(Some("test.txt"));
    let first = resolve_upload_name(&mut dir, &namer).unwrap();
    let second = resolve_upload_name(&mut dir, &namer).unwrap();
    let third = resolve_upload_name(&mut dir, &namer).unwrap();
    assert_eq!(first, "test.txt");
    assert_eq!(second, "test (1).txt");
    assert_eq!(third, "test (2).txt");
    assert_ne!(first, second);
    assert_ne!(second, third);
}

#[test]
fn occupied_desired_name_is_never_overwritten() {
    let mut dir: MemoryTable<()> = MemoryTable::new();
    assert!(publish_exclusive(&mut dir, "test.txt"));
    let namer = UploadNamer::new(Some("test.txt"));
    let landed = resolve_upload_name(&mut dir, &namer).unwrap();
    assert_eq!(landed, "test (1).txt");
}
