//! Path splitting, normalization and traversal rejection.

use bulgur_cloud::paths::{canonicalize_path, parse_store_path, path_user_file, split_on};

#[test]
fn canonicalize_resolves_dot_dot_inside_root() {
    let r = canonicalize_path("storage/alice/photos/../../bob");
    assert_eq!(r.as_deref(), Some("/storage/bob"));
}

#[test]
fn canonicalize_rejects_escape_above_root() {
    assert!(canonicalize_path("a/../..").is_none());
    assert!(canonicalize_path("..").is_none());
    assert!(canonicalize_path("../a/b").is_none());
}

#[test]
fn canonicalize_drops_empty_and_dot_segments() {
    assert_eq!(canonicalize_path("a//b/./c").as_deref(), Some("/a/b/c"));
    assert_eq!(canonicalize_path("/a/b/").as_deref(), Some("/a/b"));
    assert_eq!(canonicalize_path("").as_deref(), Some("/"));
}

#[test]
fn canonicalize_is_stable_on_canonical_input() {
    let once = canonicalize_path("storage/alice/photos").unwrap();
    let twice = canonicalize_path(&once).unwrap();
    assert_eq!(once, twice);
}

#[test]
fn parse_store_path_splits_store_and_rest() {
    let (store, rest) = parse_store_path("alice/photos/cat.jpg").unwrap();
    assert_eq!(store, "alice");
    assert_eq!(rest, "photos/cat.jpg");
}

#[test]
fn parse_store_path_skips_empty_segments() {
    let (store, rest) = parse_store_path("//alice///cat.jpg").unwrap();
    assert_eq!(store, "alice");
    assert_eq!(rest, "cat.jpg");
}

#[test]
fn parse_store_path_rejects_empty() {
    assert!(parse_store_path("").is_none());
    assert!(parse_store_path("///").is_none());
}

#[test]
fn user_file_path_has_toml_extension() {
    assert_eq!(path_user_file("alice"), "users/alice.toml");
}

#[test]
fn split_on_keeps_empty_pieces() {
    let pieces = split_on("a&&b", '&');
    assert_eq!(pieces, vec!["a".to_string(), "".to_string(), "b".to_string()]);
}
