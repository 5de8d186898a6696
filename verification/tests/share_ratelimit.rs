//! Shares and the login rate limiter.

use bulgur_cloud::kv::{KVTable, MemoryTable};
use bulgur_cloud::ratelimit::{RateLimit, RateLimitOutcome};
use bulgur_cloud::share::{
    create_share, delete_share, get_share_by_path, shares_for_user, shares_page, ShareRecord,
    SHARES_COUNT,
};
use bulgur_cloud::state::Username;
use bulgur_cloud::storage::StorageError;

fn stored_share(id: &str, path: &str, by: &str, with: Option<&str>) -> ShareRecord {
    ShareRecord {
        id: id.to_string(),
        path: path.to_string(),
        shared_by_user: by.to_string(),
        shared_with_user: with.map(|w| w.to_string()),
        created_at: 0,
        updated_at: 0,
        expires_at: None,
    }
}

#[test]
fn owner_creates_share_inside_own_store() {
    let mut shares: MemoryTable<ShareRecord> = MemoryTable::new();
    let alice = Username("alice".to_string());
    let id = create_share(
        &mut shares,
        Some(&alice),
        "alice",
        "photos",
        Some("bob".to_string()),
        42,
    )
    .unwrap();
    let rec = shares.get(&id).unwrap();
    assert_eq!(rec.path, "storage/alice/photos");
    assert_eq!(rec.shared_by_user, "alice");
    assert_eq!(rec.shared_with_user.as_deref(), Some("bob"));
    assert_eq!(rec.created_at, 42);
    assert!(rec.expires_at.is_none());
}

#[test]
fn non_owner_cannot_share() {
    let mut shares: MemoryTable<ShareRecord> = MemoryTable::new();
    let mallory = Username("mallory".to_string());
    let r = create_share(&mut shares, Some(&mallory), "alice", "photos", None, 0);
    assert!(matches!(r, Err(StorageError::NotAuthorized)));
    let r = create_share(&mut shares, None, "alice", "photos", None, 0);
    assert!(matches!(r, Err(StorageError::NotAuthorized)));
}

#[test]
fn share_of_escaping_path_is_bad_path() {
    let mut shares: MemoryTable<ShareRecord> = MemoryTable::new();
    let alice = Username("alice".to_string());
    let r = create_share(&mut shares, Some(&alice), "alice", "../bob", None, 0);
    assert!(matches!(r, Err(StorageError::BadPath)));
}

#[test]
fn recipient_finds_share_by_path() {
    let mut shares: MemoryTable<ShareRecord> = MemoryTable::new();
    shares.put("s1", stored_share("s1", "storage/alice/photos", "alice", Some("bob")));
    let found = get_share_by_path(&shares, "bob", "storage/alice/photos").unwrap();
    assert_eq!(found.token, "s1");
    assert_eq!(found.path, "storage/alice/photos");
    assert!(get_share_by_path(&shares, "carol", "storage/alice/photos").is_none());
    assert!(get_share_by_path(&shares, "bob", "storage/alice/docs").is_none());
}

#[test]
fn only_creator_deletes_share() {
    let mut shares: MemoryTable<ShareRecord> = MemoryTable::new();
    shares.put("s1", stored_share("s1", "storage/alice/photos", "alice", Some("bob")));
    assert!(delete_share(&mut shares, "bob", "storage/alice/photos").is_none());
    assert!(shares.get("s1").is_some());
    let deleted = delete_share(&mut shares, "alice", "storage/alice/photos").unwrap();
    assert_eq!(deleted, "s1");
    assert!(shares.get("s1").is_none());
}

#[test]
fn listing_selects_only_shares_granted_to_the_user() {
    let mut shares: MemoryTable<ShareRecord> = MemoryTable::new();
    shares.put("a1", stored_share("a1", "storage/alice/x", "alice", Some("bob")));
    shares.put("a2", stored_share("a2", "storage/alice/y", "alice", Some("carol")));
    shares.put("a3", stored_share("a3", "storage/alice/z", "alice", Some("bob")));
    shares.put("a4", stored_share("a4", "storage/alice/w", "alice", None));
    let page = shares_for_user(&shares, "bob", None);
    assert_eq!(page.shares.len(), 2);
    for row in &page.shares {
        assert!(row.token == "a1" || row.token == "a3");
    }
    assert!(page.bookmark.is_none());
    let empty = shares_for_user(&shares, "dave", None);
    assert_eq!(empty.shares.len(), 0);
}

#[test]
fn listing_resumes_past_the_bookmark_and_caps_the_page() {
    let mut shares: MemoryTable<ShareRecord> = MemoryTable::new();
    for i in 0..60 {
        let id = format!("id{i:02}");
        shares.put(&id, stored_share(&id, &format!("p{i:02}"), "alice", Some("bob")));
    }
    let first = shares_for_user(&shares, "bob", None);
    assert_eq!(first.shares.len(), SHARES_COUNT);
    assert!(first.bookmark.is_some());
    // resuming past id49 yields the remaining ten rows, all with larger ids
    let rest = shares_for_user(&shares, "bob", Some("id49"));
    assert_eq!(rest.shares.len(), 10);
    for row in &rest.shares {
        assert!(row.token.as_str() > "id49");
    }
    assert!(rest.bookmark.is_none());
}

#[test]
fn unauthorized_share_creation_reports_not_authorized() {
    let mut shares: MemoryTable<ShareRecord> = MemoryTable::new();
    let mallory = Username("mallory".to_string());
    let r = create_share(&mut shares, Some(&mallory), "alice", "photos", None, 0);
    match r {
        Err(e) => assert_eq!(e.status_code(), 401),
        Ok(_) => panic!("a non-owner must not create a share"),
    }
}

#[test]
fn shares_page_projects_and_bookmarks() {
    let few = vec![
        stored_share("s1", "storage/alice/a", "alice", Some("bob")),
        stored_share("s2", "storage/alice/b", "alice", Some("bob")),
    ];
    let page = shares_page(&few);
    assert_eq!(page.shares.len(), 2);
    assert_eq!(page.shares[0].token, "s1");
    assert_eq!(page.shares[0].path, "storage/alice/a");
    assert!(page.bookmark.is_none());

    let mut full = Vec::new();
    for i in 0..SHARES_COUNT {
        full.push(stored_share(&format!("id{i}"), &format!("p{i}"), "alice", None));
    }
    let page = shares_page(&full);
    assert_eq!(page.shares.len(), SHARES_COUNT);
    assert_eq!(page.bookmark.as_deref(), Some("p49"));
}

#[test]
fn burst_then_throttled_with_retry_advice() {
    let mut limiter = RateLimit::new();
    for _ in 0..10 {
        assert!(matches!(limiter.check_key("1.2.3.4", 0), RateLimitOutcome::Allowed));
    }
    match limiter.check_key("1.2.3.4", 0) {
        RateLimitOutcome::Limited { retry_after_seconds } => {
            // the whole burst was spent at the same instant, so the next
            // token is one full six-second interval away
            assert_eq!(retry_after_seconds, 6);
        }
        RateLimitOutcome::Allowed => panic!("eleventh request within the burst must be limited"),
    }
}

#[test]
fn bucket_replenishes_over_time() {
    let mut limiter = RateLimit::new();
    for _ in 0..10 {
        assert!(matches!(limiter.check_key("k", 0), RateLimitOutcome::Allowed));
    }
    assert!(matches!(
        limiter.check_key("k", 1000),
        RateLimitOutcome::Limited { .. }
    ));
    assert!(matches!(limiter.check_key("k", 6001), RateLimitOutcome::Allowed));
    assert!(matches!(
        limiter.check_key("k", 6002),
        RateLimitOutcome::Limited { .. }
    ));
}

#[test]
fn keys_are_throttled_independently() {
    let mut limiter = RateLimit::new();
    for _ in 0..10 {
        assert!(matches!(limiter.check_key("a", 0), RateLimitOutcome::Allowed));
    }
    assert!(matches!(limiter.check_key("a", 0), RateLimitOutcome::Limited { .. }));
    assert!(matches!(limiter.check_key("b", 0), RateLimitOutcome::Allowed));
}
