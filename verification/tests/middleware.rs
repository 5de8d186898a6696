//! Credential resolution: access tokens, path tokens, share tokens, and the
//! exact-path scope of a path token.

use bulgur_cloud::auth_middleware::{
    make_path_token, token_from_query, url_decode, verify_auth, AuthMiddlewareError,
    PATH_TOKENS_VALID_SECONDS,
};
use bulgur_cloud::kv::{KVTable, MemoryTable};
use bulgur_cloud::share::ShareRecord;
use bulgur_cloud::state::{AccessTokenStored, Authorized, PathTokenStored, Token, Username};

fn empty_tables() -> (
    MemoryTable<AccessTokenStored>,
    MemoryTable<PathTokenStored>,
    MemoryTable<ShareRecord>,
) {
    (MemoryTable::new(), MemoryTable::new(), MemoryTable::new())
}

fn access_record(name: &str) -> AccessTokenStored {
    AccessTokenStored { username: Username(name.to_string()), created_at: 0 }
}

#[test]
fn url_decode_resolves_escapes() {
    assert_eq!(url_decode("a%20b").as_deref(), Some("a b"));
    assert_eq!(url_decode("plain/path").as_deref(), Some("plain/path"));
}

#[test]
fn query_token_extracted_only_for_safe_methods() {
    let t = token_from_query("a=1&token=secret123&b=2", true).unwrap();
    assert_eq!(t.reveal_secret(), "secret123");
    assert!(token_from_query("a=1&token=secret123", false).is_none());
    assert!(token_from_query("a=1&b=2", true).is_none());
}

#[test]
fn query_token_takes_first_pair() {
    let t = token_from_query("token=first&token=second", true).unwrap();
    assert_eq!(t.reveal_secret(), "first");
}

#[test]
fn user_token_resolves_to_user() {
    let (mut access, paths, shares) = empty_tables();
    access.put("tok-1", access_record("alice"));
    let r = verify_auth(
        &access,
        &paths,
        &shares,
        Some(&Token::read("tok-1")),
        None,
        None,
        "/storage/alice",
        0,
    );
    match r.unwrap() {
        Authorized::User(u) => assert_eq!(u.0, "alice"),
        _ => panic!("expected a user authorization"),
    }
}

#[test]
fn unknown_tokens_rejected() {
    let (access, paths, shares) = empty_tables();
    let r = verify_auth(
        &access,
        &paths,
        &shares,
        Some(&Token::read("bogus")),
        None,
        None,
        "/storage/alice",
        0,
    );
    assert!(matches!(r, Err(AuthMiddlewareError::Failed)));
    let failure = AuthMiddlewareError::Failed;
    assert_eq!(failure.status_code(), 401);
    assert_eq!(
        failure.message(),
        "Auth token is missing or invalid, but authorization is required for this route."
    );
}

#[test]
fn path_token_grants_exact_path() {
    let (access, mut paths, shares) = empty_tables();
    let token = make_path_token(&mut paths, "storage/alice/photos", 1000);
    let r = verify_auth(
        &access,
        &paths,
        &shares,
        None,
        Some(&token),
        None,
        "/storage/alice/photos",
        1000,
    );
    assert!(matches!(r.unwrap(), Authorized::Path));
}

#[test]
fn path_token_does_not_leak_to_sibling_names() {
    let (access, mut paths, shares) = empty_tables();
    let token = make_path_token(&mut paths, "storage/alice/photos", 1000);
    let r = verify_auth(
        &access,
        &paths,
        &shares,
        None,
        Some(&token),
        None,
        "/storage/alice/photos-leak",
        1000,
    );
    assert!(r.is_err());
}

#[test]
fn path_token_does_not_follow_traversal() {
    let (access, mut paths, shares) = empty_tables();
    let token = make_path_token(&mut paths, "storage/alice/photos", 1000);
    let r = verify_auth(
        &access,
        &paths,
        &shares,
        None,
        Some(&token),
        None,
        "/storage/alice/photos/../../bob",
        1000,
    );
    assert!(r.is_err());
}

#[test]
fn path_token_matches_normalized_request() {
    let (access, mut paths, shares) = empty_tables();
    let token = make_path_token(&mut paths, "storage/alice/my file", 1000);
    let r = verify_auth(
        &access,
        &paths,
        &shares,
        None,
        Some(&token),
        None,
        "/storage/alice/./my%20file",
        1000,
    );
    assert!(matches!(r.unwrap(), Authorized::Path));
}

#[test]
fn path_token_expires() {
    let (access, mut paths, shares) = empty_tables();
    let issued_at = 1000;
    let token = make_path_token(&mut paths, "storage/alice/photos", issued_at);
    let just_in_time = issued_at + PATH_TOKENS_VALID_SECONDS;
    let r = verify_auth(
        &access,
        &paths,
        &shares,
        None,
        Some(&token),
        None,
        "/storage/alice/photos",
        just_in_time,
    );
    assert!(r.is_ok());
    let too_late = issued_at + PATH_TOKENS_VALID_SECONDS + 1;
    let r = verify_auth(
        &access,
        &paths,
        &shares,
        None,
        Some(&token),
        None,
        "/storage/alice/photos",
        too_late,
    );
    assert!(r.is_err());
}

#[test]
fn wrong_path_token_value_rejected() {
    let (access, mut paths, shares) = empty_tables();
    let _token = make_path_token(&mut paths, "storage/alice/photos", 1000);
    let r = verify_auth(
        &access,
        &paths,
        &shares,
        None,
        Some(&Token::read("forged")),
        None,
        "/storage/alice/photos",
        1000,
    );
    assert!(r.is_err());
}

#[test]
fn user_and_path_token_combine_to_both() {
    let (mut access, mut paths, shares) = empty_tables();
    access.put("tok-1", access_record("alice"));
    let path_token = make_path_token(&mut paths, "storage/alice/photos", 0);
    let r = verify_auth(
        &access,
        &paths,
        &shares,
        Some(&Token::read("tok-1")),
        Some(&path_token),
        None,
        "/storage/alice/photos",
        0,
    );
    match r.unwrap() {
        Authorized::Both(u) => assert_eq!(u.0, "alice"),
        _ => panic!("expected combined authorization"),
    }
}

#[test]
fn invalid_user_token_does_not_suppress_valid_path_token() {
    let (access, mut paths, shares) = empty_tables();
    let path_token = make_path_token(&mut paths, "storage/alice/photos", 0);
    let r = verify_auth(
        &access,
        &paths,
        &shares,
        Some(&Token::read("expired-or-bogus")),
        Some(&path_token),
        None,
        "/storage/alice/photos",
        0,
    );
    assert!(matches!(r.unwrap(), Authorized::Path));
}

#[test]
fn share_token_scoped_to_shared_path() {
    let (access, paths, mut shares) = empty_tables();
    shares.put(
        "share-1",
        ShareRecord {
            id: "share-1".to_string(),
            path: "storage/alice/photos".to_string(),
            shared_by_user: "alice".to_string(),
            shared_with_user: Some("bob".to_string()),
            created_at: 0,
            updated_at: 0,
            expires_at: None,
        },
    );
    // the shared path itself is granted, in any spelling that normalizes to it
    let r = verify_auth(
        &access,
        &paths,
        &shares,
        None,
        None,
        Some(&Token::read("share-1")),
        "/storage/alice/./photos",
        0,
    );
    assert!(matches!(r.unwrap(), Authorized::Path));
    // a sibling name, another user's store, or a dodge through `..` is not
    for request in [
        "/storage/alice/photos-leak",
        "/storage/bob",
        "/storage/alice/photos/../../bob",
        "/storage/alice",
    ] {
        let r = verify_auth(
            &access,
            &paths,
            &shares,
            None,
            None,
            Some(&Token::read("share-1")),
            request,
            0,
        );
        assert!(r.is_err());
    }
}

#[test]
fn share_token_grants_until_expiry() {
    let (access, paths, mut shares) = empty_tables();
    shares.put(
        "share-1",
        ShareRecord {
            id: "share-1".to_string(),
            path: "storage/alice/photos".to_string(),
            shared_by_user: "alice".to_string(),
            shared_with_user: Some("bob".to_string()),
            created_at: 0,
            updated_at: 0,
            expires_at: Some(100),
        },
    );
    let r = verify_auth(
        &access,
        &paths,
        &shares,
        None,
        None,
        Some(&Token::read("share-1")),
        "/storage/alice/photos",
        100,
    );
    assert!(matches!(r.unwrap(), Authorized::Path));
    let r = verify_auth(
        &access,
        &paths,
        &shares,
        None,
        None,
        Some(&Token::read("share-1")),
        "/storage/alice/photos",
        101,
    );
    assert!(r.is_err());
}
