//! The whole engine end to end over the in-memory store: account creation,
//! login, listing, colliding uploads, and account deletion. Also the smaller
//! pieces: the key/value table, the page helpers and the data model.

use bulgur_cloud::auth::{
    add_new_user, create_nobody, delete_user, login, Login, Password, ScryptCost,
};
use bulgur_cloud::auth_middleware::verify_auth;
use bulgur_cloud::kv::{KVTable, MemoryTable};
use bulgur_cloud::pages::{
    basic_folder_location, display_username, login_cookie_value, parent_path_of,
};
use bulgur_cloud::error::CLIError;
use bulgur_cloud::share::ShareRecord;
use bulgur_cloud::state::{
    AppState, Authorized, PathTokenStored, Token, UserType, Username,
};
use bulgur_cloud::storage::{get_authorized_path, FolderResults, IOErrorKind, StorageError};
use bulgur_cloud::upload::{resolve_upload_name, UploadNamer};
use std::str::FromStr;

fn cheap() -> ScryptCost {
    ScryptCost { log_n: 5, r: 2, p: 1 }
}

#[test]
fn create_login_list_upload_delete() {
    let mut state = AppState::new(0);
    let shares: MemoryTable<ShareRecord> = MemoryTable::new();
    create_nobody(&mut state.users, &cheap()).unwrap();
    add_new_user("alice", "pw1", UserType::User, &mut state.users, &cheap()).unwrap();

    // log in and resolve the issued token
    let resp = login(
        &mut state,
        &Login { username: "alice".to_string(), password: Password("pw1".to_string()) },
        1,
    )
    .unwrap();
    let authorized = verify_auth(
        &state.access_tokens,
        &state.path_tokens,
        &shares,
        Some(&resp.access_token),
        None,
        None,
        "/storage/alice",
        1,
    )
    .unwrap();
    match &authorized {
        Authorized::User(u) => assert_eq!(u.0, "alice"),
        _ => panic!("a fresh login must authorize as the user"),
    }

    // the store root is reachable, and an empty store lists no entries
    let root = get_authorized_path(&Some(authorized), "alice", None).unwrap();
    assert_eq!(root, "storage/alice");
    let listing = FolderResults { entries: vec![] };
    assert_eq!(listing.entries.len(), 0);

    // upload test.txt twice: the second lands as "test (1).txt"
    let mut dir: MemoryTable<()> = MemoryTable::new();
    let namer = UploadNamer::new(Some("test.txt"));
    let first = resolve_upload_name(&mut dir, &namer).unwrap();
    let second = resolve_upload_name(&mut dir, &namer).unwrap();
    assert_eq!(first, "test.txt");
    assert_eq!(second, "test (1).txt");

    // deleting the user removes the record and every token of theirs;
    // whether the on-disk store goes too is the delete_files flag, decided
    // at the filesystem edge
    delete_user(&mut state.users, &mut state.access_tokens, "alice");
    assert!(state.users.get("alice").is_none());
    let after = verify_auth(
        &state.access_tokens,
        &state.path_tokens,
        &shares,
        Some(&resp.access_token),
        None,
        None,
        "/storage/alice",
        2,
    );
    assert!(after.is_err());
}

#[test]
fn memory_table_get_put_delete() {
    let mut table: MemoryTable<Username> = MemoryTable::new();
    assert!(table.get("k").is_none());
    table.put("k", Username("v1".to_string()));
    assert_eq!(table.get("k").unwrap().0, "v1");
    table.put("k", Username("v2".to_string()));
    assert_eq!(table.get("k").unwrap().0, "v2");
    assert_eq!(table.entry_count(), 1);
    table.delete("k");
    assert!(table.get("k").is_none());
    table.delete("k");
    assert!(table.get("k").is_none());
}

#[test]
fn tokens_are_long_and_fresh() {
    let a = Token::new();
    let b = Token::new();
    assert_eq!(a.reveal_secret().len(), 21);
    assert_ne!(a.reveal_secret(), b.reveal_secret());
    assert!(a
        .reveal_secret()
        .chars()
        .all(|c| c.is_ascii_alphanumeric() || c == '_' || c == '-'));
    let read_back = Token::read(a.reveal_secret());
    assert!(read_back == a);
    assert_eq!(a.unwrap().len(), 21);
}

#[test]
fn user_type_parses_case_insensitively() {
    assert!(matches!(UserType::from_str("user"), Ok(UserType::User)));
    assert!(matches!(UserType::from_str("ADMIN"), Ok(UserType::Admin)));
    assert!(matches!(UserType::from_str("Admin"), Ok(UserType::Admin)));
    let err = UserType::from_str("root").unwrap_err();
    assert_eq!(err.message(), "Bad user type, should be user or admin");
    // the rejected input is reported lowercased
    let CLIError::BadUserType(reported) = UserType::from_str("RoOt").unwrap_err();
    assert_eq!(reported, "root");
    assert!(matches!(UserType::default(), UserType::User));
}

#[test]
fn uptime_counts_from_start() {
    let state = AppState::new(100);
    assert_eq!(state.uptime_seconds(160), 60);
}

#[test]
fn page_helpers_compute_links() {
    assert_eq!(parent_path_of("alice/photos/cats").as_deref(), Some("alice/photos"));
    assert_eq!(parent_path_of("alice/photos").as_deref(), Some("alice"));
    assert!(parent_path_of("alice").is_none());
    assert!(parent_path_of("").is_none());

    assert_eq!(basic_folder_location("alice", "photos/"), "/basic/alice/photos/");

    let token = Token::read("tok-value");
    assert_eq!(login_cookie_value(&token), "tok-value; SameSite=Strict");

    assert_eq!(display_username(&Authorized::Path), "anonymous");
    assert_eq!(
        display_username(&Authorized::User(Username("alice".to_string()))),
        "alice"
    );
}

#[test]
fn path_token_record_carries_window() {
    let mut paths: MemoryTable<PathTokenStored> = MemoryTable::new();
    let token =
        bulgur_cloud::auth_middleware::make_path_token(&mut paths, "storage/alice/photos", 500);
    let stored = paths.get("/storage/alice/photos").unwrap();
    assert!(stored.token == token);
    assert_eq!(stored.created_at, 500);
    assert_eq!(stored.valid_until, 500 + 24 * 60 * 60);
}

#[test]
fn io_errors_map_to_statuses_via_kind() {
    let not_found = StorageError::IOError(IOErrorKind::NotFound);
    assert_eq!(not_found.status_code(), 404);
    assert_eq!(not_found.message(), "IO error");
}
