//! Password hashing, verification and the login flow over the in-memory
//! store.

use bulgur_cloud::auth::{
    add_new_user, create_nobody, delete_user, hash_password, login, make_token,
    validate_username, verify_pass, verify_password_hash, AddUserError, Login, LoginError,
    LoginFailed, Password, ScryptCost, VerifyError,
};
use bulgur_cloud::kv::{KVTable, MemoryTable};
use bulgur_cloud::state::{AccessTokenStored, AppState, UserData, UserType};

fn cheap() -> ScryptCost {
    ScryptCost { log_n: 5, r: 2, p: 1 }
}

fn record(name: &str, password: &str) -> UserData {
    UserData {
        username: name.to_string(),
        password_hash: hash_password(password, &cheap()).unwrap(),
        user_type: UserType::User,
    }
}

#[test]
fn hash_verifies_same_password_only() {
    let hash = hash_password("pw1", &cheap()).unwrap();
    assert!(verify_password_hash("pw1", &hash));
    assert!(!verify_password_hash("pw2", &hash));
    assert!(!verify_password_hash("", &hash));
}

#[test]
fn hashes_are_salted() {
    let h1 = hash_password("pw1", &cheap()).unwrap();
    let h2 = hash_password("pw1", &cheap()).unwrap();
    assert_ne!(h1, h2);
    assert!(verify_password_hash("pw1", &h1));
    assert!(verify_password_hash("pw1", &h2));
}

#[test]
fn rejected_hash_parameters_surface_as_error() {
    let absurd = ScryptCost { log_n: 64, r: 8, p: 1 };
    assert!(hash_password("pw1", &absurd).is_err());
}

#[test]
fn username_validation_rejects_separators() {
    assert!(validate_username("alice").is_ok());
    assert!(validate_username("alice-2_b").is_ok());
    let err = validate_username("a/b").unwrap_err();
    assert_eq!(
        err.message(),
        "You can't use a/b as a username. Try to avoid special characters."
    );
    assert!(validate_username("..").is_err());
}

#[test]
fn verify_pass_accepts_right_password() {
    let alice = record("alice", "pw1");
    let nobody = record("nobody", "never-used");
    let r = verify_pass("alice", &Password("pw1".to_string()), Some(&alice), &nobody);
    assert!(r.is_ok());
}

#[test]
fn verify_pass_unknown_user_and_wrong_password_fail_alike() {
    let alice = record("alice", "pw1");
    let nobody = record("nobody", "never-used");
    let wrong = verify_pass("alice", &Password("bad".to_string()), Some(&alice), &nobody);
    let unknown = verify_pass("ghost", &Password("bad".to_string()), None, &nobody);
    assert!(matches!(wrong, Err(VerifyError::BadCredentials)));
    assert!(matches!(unknown, Err(VerifyError::BadCredentials)));
}

#[test]
fn verify_pass_flags_corrupted_record() {
    let mallory = record("mallory", "pw1");
    let nobody = record("nobody", "never-used");
    let r = verify_pass("alice", &Password("pw1".to_string()), Some(&mallory), &nobody);
    assert!(matches!(r, Err(VerifyError::BadUserData { .. })));
}

#[test]
fn add_new_user_stores_verifying_record() {
    let mut users: MemoryTable<UserData> = MemoryTable::new();
    add_new_user("alice", "pw1", UserType::User, &mut users, &cheap()).unwrap();
    let stored = users.get("alice").unwrap();
    assert_eq!(stored.username, "alice");
    assert!(verify_password_hash("pw1", &stored.password_hash));
}

#[test]
fn add_new_user_rejects_bad_username() {
    let mut users: MemoryTable<UserData> = MemoryTable::new();
    let r = add_new_user("a/b", "pw1", UserType::User, &mut users, &cheap());
    assert!(matches!(r, Err(AddUserError::NotAllowed(_))));
    assert!(users.get("a/b").is_none());
}

#[test]
fn nobody_record_is_created_once() {
    let mut users: MemoryTable<UserData> = MemoryTable::new();
    create_nobody(&mut users, &cheap()).unwrap();
    let first_hash = users.get("nobody").unwrap().password_hash.clone();
    create_nobody(&mut users, &cheap()).unwrap();
    let second_hash = users.get("nobody").unwrap().password_hash.clone();
    assert_eq!(first_hash, second_hash);
}

#[test]
fn make_token_records_user_and_creation_time() {
    let mut tokens: MemoryTable<AccessTokenStored> = MemoryTable::new();
    let t = make_token(&mut tokens, "alice", 777).unwrap();
    assert_eq!(t.reveal_secret().len(), 21);
    let stored = tokens.get(t.reveal_secret()).unwrap();
    assert_eq!(stored.username.0, "alice");
    assert_eq!(stored.created_at, 777);
}

#[test]
fn login_issues_token_for_right_password() {
    let mut state = AppState::new(0);
    create_nobody(&mut state.users, &cheap()).unwrap();
    add_new_user("alice", "pw1", UserType::User, &mut state.users, &cheap()).unwrap();
    let resp = login(
        &mut state,
        &Login { username: "alice".to_string(), password: Password("pw1".to_string()) },
        900,
    )
    .unwrap();
    let stored = state.access_tokens.get(resp.access_token.reveal_secret()).unwrap();
    assert_eq!(stored.username.0, "alice");
    assert_eq!(stored.created_at, 900);
}

#[test]
fn login_fails_bad_password_and_unknown_user_identically() {
    let mut state = AppState::new(0);
    create_nobody(&mut state.users, &cheap()).unwrap();
    add_new_user("alice", "pw1", UserType::User, &mut state.users, &cheap()).unwrap();
    let bad_pw = login(
        &mut state,
        &Login { username: "alice".to_string(), password: Password("nope".to_string()) },
        0,
    );
    let unknown = login(
        &mut state,
        &Login { username: "ghost".to_string(), password: Password("nope".to_string()) },
        0,
    );
    assert!(matches!(bad_pw, Err(LoginError::Failed(LoginFailed))));
    assert!(matches!(unknown, Err(LoginError::Failed(LoginFailed))));
    let failure = LoginFailed;
    assert_eq!(failure.status_code(), 401);
    assert_eq!(failure.message(), "Login failed, incorrect username or password.");
}

#[test]
fn delete_user_cascades_to_tokens() {
    let mut state = AppState::new(0);
    create_nobody(&mut state.users, &cheap()).unwrap();
    add_new_user("alice", "pw1", UserType::User, &mut state.users, &cheap()).unwrap();
    add_new_user("bob", "pw2", UserType::User, &mut state.users, &cheap()).unwrap();
    let alice_token = make_token(&mut state.access_tokens, "alice", 0).unwrap();
    let bob_token = make_token(&mut state.access_tokens, "bob", 0).unwrap();
    delete_user(&mut state.users, &mut state.access_tokens, "alice");
    assert!(state.users.get("alice").is_none());
    assert!(state.access_tokens.get(alice_token.reveal_secret()).is_none());
    assert!(state.access_tokens.get(bob_token.reveal_secret()).is_some());
}

#[test]
fn password_never_displays_its_contents() {
    let p = Password("correct horse battery staple".to_string());
    assert_eq!(p.redacted(), "[[SECRET]]");
}
