//! The path guard: who may touch which store, and how traversal attempts
//! are rejected.

use bulgur_cloud::state::{Authorized, Username};
use bulgur_cloud::storage::{
    get_authorized_path, plan_storage_action, IOErrorKind, StorageAction, StorageError,
    StoragePlan,
};

fn user(name: &str) -> Option<Authorized> {
    Some(Authorized::User(Username(name.to_string())))
}

#[test]
fn user_reaches_own_store() {
    let r = get_authorized_path(&user("alice"), "alice", Some("photos/cat.jpg"));
    assert_eq!(r.unwrap(), "storage/alice/photos/cat.jpg");
}

#[test]
fn user_reaches_store_root_without_path() {
    let r = get_authorized_path(&user("alice"), "alice", None);
    assert_eq!(r.unwrap(), "storage/alice");
}

#[test]
fn user_denied_on_foreign_store() {
    let r = get_authorized_path(&user("alice"), "bob", Some("photos"));
    assert!(matches!(r, Err(StorageError::NotAuthorized)));
}

#[test]
fn missing_credentials_denied() {
    let r = get_authorized_path(&None, "alice", Some("photos"));
    assert!(matches!(r, Err(StorageError::NotAuthorized)));
}

#[test]
fn path_capability_reaches_any_store() {
    let r = get_authorized_path(&Some(Authorized::Path), "bob", Some("photos"));
    assert_eq!(r.unwrap(), "storage/bob/photos");
    let r = get_authorized_path(
        &Some(Authorized::Both(Username("alice".to_string()))),
        "bob",
        None,
    );
    assert_eq!(r.unwrap(), "storage/bob");
}

#[test]
fn rejects_traversal_above_store() {
    let r = get_authorized_path(&user("alice"), "alice", Some("../bob/secret.txt"));
    assert!(matches!(r, Err(StorageError::BadPath)));
    let r = get_authorized_path(&user("alice"), "alice", Some("photos/../../bob"));
    assert!(matches!(r, Err(StorageError::BadPath)));
    let r = get_authorized_path(&user("alice"), "alice", Some("a/b/../../../x"));
    assert!(matches!(r, Err(StorageError::BadPath)));
}

#[test]
fn dot_dot_inside_store_stays_inside() {
    let r = get_authorized_path(&user("alice"), "alice", Some("photos/../docs/a.txt"));
    assert_eq!(r.unwrap(), "storage/alice/docs/a.txt");
}

#[test]
fn status_codes_match_error_taxonomy() {
    assert_eq!(StorageError::NotAuthorized.status_code(), 401);
    assert_eq!(StorageError::TokenMissing.status_code(), 400);
    assert_eq!(StorageError::IOError(IOErrorKind::NotFound).status_code(), 404);
    assert_eq!(StorageError::IOError(IOErrorKind::AlreadyExists).status_code(), 400);
    assert_eq!(StorageError::IOError(IOErrorKind::Other).status_code(), 500);
    assert_eq!(StorageError::UploadError.status_code(), 400);
    assert_eq!(StorageError::BadPath.status_code(), 400);
}

#[test]
fn move_plan_authorizes_both_ends() {
    let action = StorageAction::Move { new_path: "alice/docs/b.txt".to_string() };
    let r = plan_storage_action(&user("alice"), "alice", "docs/a.txt", &action);
    match r.unwrap() {
        StoragePlan::MoveFile { from, to } => {
            assert_eq!(from, "storage/alice/docs/a.txt");
            assert_eq!(to, "storage/alice/docs/b.txt");
        }
        _ => panic!("expected a move plan"),
    }
}

#[test]
fn move_to_foreign_store_denied() {
    let action = StorageAction::Move { new_path: "bob/stolen.txt".to_string() };
    let r = plan_storage_action(&user("alice"), "alice", "docs/a.txt", &action);
    assert!(matches!(r, Err(StorageError::NotAuthorized)));
}

#[test]
fn move_to_empty_target_is_bad_path() {
    let action = StorageAction::Move { new_path: "///".to_string() };
    let r = plan_storage_action(&user("alice"), "alice", "docs/a.txt", &action);
    assert!(matches!(r, Err(StorageError::BadPath)));
}

#[test]
fn create_folder_plan_carries_authorized_path() {
    let r = plan_storage_action(&user("alice"), "alice", "newdir", &StorageAction::CreateFolder);
    match r.unwrap() {
        StoragePlan::CreateFolder { path } => assert_eq!(path, "storage/alice/newdir"),
        _ => panic!("expected a create-folder plan"),
    }
}

#[test]
fn error_messages_are_stable() {
    assert_eq!(
        StorageError::NotAuthorized.message(),
        "User is not authorized to view this."
    );
    assert_eq!(StorageError::BadPath.message(), "Bad path");
}
