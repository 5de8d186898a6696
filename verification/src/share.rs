//! Sharing: owner-granted access records pointing at a path, optionally
//! scoped to one recipient, with the decisions for creating, listing and
//! deleting them.

use vstd::prelude::*;

use crate::kv::{KVTable, MemoryTable};
use crate::state::{Username, ID_LENGTH};
use crate::storage::{get_authorized_path, StorageError};
use crate::state::Authorized;

verus! {

/// A stored share row: who shared which path with whom, and when.
pub struct ShareRecord {
    pub id: String,
    pub path: String,
    pub shared_by_user: String,
    pub shared_with_user: Option<String>,
    pub created_at: i64,
    pub updated_at: i64,
    pub expires_at: Option<i64>,
}

/// The mathematical image of a `ShareRecord`.
pub struct ShareRecordView {
    pub id: Seq<char>,
    pub path: Seq<char>,
    pub shared_by_user: Seq<char>,
    pub shared_with_user: Option<Seq<char>>,
    pub created_at: i64,
    pub updated_at: i64,
    pub expires_at: Option<i64>,
}

impl View for ShareRecord {
    type V = ShareRecordView;

    open spec fn view(&self) -> ShareRecordView {
        ShareRecordView {
            id: self.id@,
            path: self.path@,
            shared_by_user: self.shared_by_user@,
            shared_with_user: match &self.shared_with_user {
                Some(u) => Some(u@),
                None => None,
            },
            created_at: self.created_at,
            updated_at: self.updated_at,
            expires_at: self.expires_at,
        }
    }
}

/// The request body for creating a share.
pub struct CreateShareData {
    pub with_user: Option<String>,
}

/// One share as reported to a client.
pub struct Share {
    pub path: String,
    pub by_user: String,
    pub token: String,
}

/// A page of shares, with a bookmark when more may follow.
pub struct GetSharesResponse {
    pub shares: Vec<Share>,
    pub bookmark: Option<String>,
}

/// The query parameters of a share listing.
pub struct GetSharesQuery {
    pub bookmark: Option<String>,
}

/// How many shares one listing page holds at most.
pub const SHARES_COUNT: usize = 50;

/// Creates a share: only a logged-in user may share, and only paths inside
/// their own store; the stored row carries the authorized path, the sharer,
/// the optional recipient and the timestamps. An unauthorized caller always
/// gets `NotAuthorized`, an escaping path always `BadPath`; the only other
/// failure is a fresh-id collision, which demands that the table already
/// held some id-length key — so on a table without one, an authorized owner
/// with a good path is owed success.
pub fn create_share(
    shares: &mut MemoryTable<ShareRecord>,
    user: Option<&Username>,
    store: &str,
    rel_path: &str,
    with_user: Option<String>,
    now: i64,
) -> (r: Result<String, StorageError>)
    requires
        old(shares).wf(),
    ensures
        final(shares).wf(),
        ({
            let allowed = match user {
                Some(u) => u@ == store@,
                None => false,
            };
            let target = crate::storage::store_target(store@, Some(rel_path@));
            match r {
                Ok(id) => allowed && (target matches Some(p) && !old(shares)@.contains_key(id@)
                    && final(shares)@.contains_key(id@) && final(shares)@.remove(id@) == old(
                    shares,
                )@ && id@.len() == ID_LENGTH && ({
                    let rec = final(shares)@[id@]@;
                    rec.id == id@ && rec.path == p && (match user {
                        Some(u) => rec.shared_by_user == u@,
                        None => false,
                    }) && rec.shared_with_user == (match with_user {
                        Some(w) => Some(w@),
                        None => None::<Seq<char>>,
                    }) && rec.created_at == now && rec.updated_at == now && rec.expires_at
                        is None
                })),
                Err(StorageError::NotAuthorized) => !allowed && final(shares)@ == old(shares)@,
                Err(StorageError::BadPath) => allowed && target is None && final(shares)@ == old(
                    shares,
                )@,
                Err(StorageError::IOError(_)) => allowed && target is Some && (exists|
                    k: Seq<char>,
                |
                    old(shares)@.contains_key(k) && k.len() == ID_LENGTH) && final(shares)@
                    == old(shares)@,
                Err(_) => false,
            }
        }),
        (match user {
            Some(u) => u@ != store@,
            None => true,
        }) ==> r matches Err(StorageError::NotAuthorized),
        ((match user {
            Some(u) => u@ == store@,
            None => false,
        }) && crate::storage::store_target(store@, Some(rel_path@)) is None) ==> r matches Err(
            StorageError::BadPath,
        ),
{
    let own = match user {
        Some(u) => crate::strutil::str_equal(u.0.as_str(), store),
        None => false,
    };
    if !own {
        return Err(StorageError::NotAuthorized);
    }
    let u = match user {
        Some(u) => u,
        None => {
            return Err(StorageError::NotAuthorized);
        },
    };
    let authorized = Some(Authorized::User(u.clone()));
    let store_path = match get_authorized_path(&authorized, store, Some(rel_path)) {
        Ok(p) => p,
        Err(_) => {
            return Err(StorageError::BadPath);
        },
    };
    let id = crate::state::random_id(ID_LENGTH);
    if shares.get(id.as_str()).is_some() {
        // a fresh random id collided with a stored one: broken randomness
        proof {
            assert(old(shares)@.contains_key(id@) && id@.len() == ID_LENGTH);
        }
        return Err(StorageError::IOError(crate::storage::IOErrorKind::Other));
    }
    let record = ShareRecord {
        id: id.clone(),
        path: store_path,
        shared_by_user: u.0.clone(),
        shared_with_user: with_user,
        created_at: now,
        updated_at: now,
        expires_at: None,
    };
    shares.put(id.as_str(), record);
    proof {
        assert(shares@.remove(id@) =~= old(shares)@);
    }
    Ok(id)
}

/// Whether this record shares this path with this recipient.
pub open spec fn shared_with_matches(
    rec: ShareRecordView,
    username: Seq<char>,
    path: Seq<char>,
) -> bool {
    rec.path == path && rec.shared_with_user == Some(username)
}

/// Whether this record was created by this user for this path.
pub open spec fn shared_by_matches(
    rec: ShareRecordView,
    username: Seq<char>,
    path: Seq<char>,
) -> bool {
    rec.path == path && rec.shared_by_user == username
}

/// Looks a share up by its path, among the shares granted to this user:
/// some stored record shares the path with them, or none does.
pub fn get_share_by_path(
    shares: &MemoryTable<ShareRecord>,
    username: &str,
    share_path: &str,
) -> (r: Option<Share>)
    requires
        shares.wf(),
    ensures
        match r {
            Some(s) => (exists|k: Seq<char>|
                #[trigger] shares@.contains_key(k) && shared_with_matches(
                    shares@[k]@,
                    username@,
                    share_path@,
                ) && s.path@ == shares@[k]@.path && s.token@ == shares@[k]@.id) && s.by_user@
                == username@,
            None => forall|k: Seq<char>|
                #[trigger] shares@.contains_key(k) ==> !shared_with_matches(
                    shares@[k]@,
                    username@,
                    share_path@,
                ),
        },
{
    let n = shares.entry_count();
    let mut i: usize = 0;
    while i < n
        invariant
            i <= n,
            n == shares.entries_view().len(),
            shares.wf(),
            forall|j: int|
                0 <= j < i ==> !shared_with_matches(
                    #[trigger] shares.entries_view()[j].1@,
                    username@,
                    share_path@,
                ),
        decreases n - i,
    {
        let entry = shares.nth(i);
        let path_hit = crate::strutil::str_equal(entry.1.path.as_str(), share_path);
        let with_hit = match &entry.1.shared_with_user {
            Some(w) => crate::strutil::str_equal(w.as_str(), username),
            None => false,
        };
        if path_hit && with_hit {
            proof {
                shares.lemma_entry_in_map(i as int);
            }
            return Some(
                Share {
                    path: entry.1.path.clone(),
                    by_user: username.to_owned(),
                    token: entry.1.id.clone(),
                },
            );
        }
        i += 1;
    }
    proof {
        assert forall|k: Seq<char>| #[trigger]
            shares@.contains_key(k) implies !shared_with_matches(
            shares@[k]@,
            username@,
            share_path@,
        ) by {
            shares.lemma_key_has_entry(k);
        }
    }
    None
}

/// Deletes a share by its path, among the shares this user created: the
/// matching record — if one exists — is removed and its id returned, and
/// nothing else changes.
pub fn delete_share(
    shares: &mut MemoryTable<ShareRecord>,
    username: &str,
    share_path: &str,
) -> (r: Option<String>)
    requires
        old(shares).wf(),
    ensures
        final(shares).wf(),
        match r {
            Some(id) => old(shares)@.contains_key(id@) && shared_by_matches(
                old(shares)@[id@]@,
                username@,
                share_path@,
            ) && final(shares)@ == old(shares)@.remove(id@),
            None => (forall|k: Seq<char>|
                #[trigger] old(shares)@.contains_key(k) ==> !shared_by_matches(
                    old(shares)@[k]@,
                    username@,
                    share_path@,
                )) && final(shares)@ == old(shares)@,
        },
{
    match find_share_by(shares, username, share_path) {
        Some(id) => {
            shares.delete(id.as_str());
            Some(id)
        },
        None => None,
    }
}

/// Finds the key of a record this user created for this path, if one exists.
fn find_share_by(
    shares: &MemoryTable<ShareRecord>,
    username: &str,
    share_path: &str,
) -> (r: Option<String>)
    requires
        shares.wf(),
    ensures
        match r {
            Some(id) => shares@.contains_key(id@) && shared_by_matches(
                shares@[id@]@,
                username@,
                share_path@,
            ),
            None => forall|k: Seq<char>|
                #[trigger] shares@.contains_key(k) ==> !shared_by_matches(
                    shares@[k]@,
                    username@,
                    share_path@,
                ),
        },
{
    let n = shares.entry_count();
    let mut i: usize = 0;
    while i < n
        invariant
            i <= n,
            n == shares.entries_view().len(),
            shares.wf(),
            forall|j: int|
                0 <= j < i ==> !shared_by_matches(
                    #[trigger] shares.entries_view()[j].1@,
                    username@,
                    share_path@,
                ),
        decreases n - i,
    {
        let entry = shares.nth(i);
        let path_hit = crate::strutil::str_equal(entry.1.path.as_str(), share_path);
        let by_hit = crate::strutil::str_equal(entry.1.shared_by_user.as_str(), username);
        if path_hit && by_hit {
            proof {
                shares.lemma_entry_in_map(i as int);
            }
            return Some(entry.0.clone());
        }
        i += 1;
    }
    proof {
        assert forall|k: Seq<char>| #[trigger]
            shares@.contains_key(k) implies !shared_by_matches(
            shares@[k]@,
            username@,
            share_path@,
        ) by {
            shares.lemma_key_has_entry(k);
        }
    }
    None
}

/// Whether this listing row is drawn from a stored record shared with this
/// user, past the bookmark in id order.
pub open spec fn row_sourced(
    shares: Map<Seq<char>, ShareRecord>,
    row: Share,
    username: Seq<char>,
    bookmark: Option<Seq<char>>,
) -> bool {
    exists|k: Seq<char>|
        #[trigger] shares.contains_key(k) && {
            let rec = shares[k]@;
            &&& rec.shared_with_user == Some(username)
            &&& row.path@ == rec.path
            &&& row.by_user@ == rec.shared_by_user
            &&& row.token@ == rec.id
            &&& (match bookmark {
                Some(b) => crate::strutil::str_lt_spec(b, rec.id),
                None => true,
            })
        }
}

/// Lists one page of the shares granted to this user: only records whose
/// recipient is the user, resuming past the bookmark in id order, at most one
/// page of them; the bookmark is handed back exactly when the page is full.
pub fn shares_for_user(
    shares: &MemoryTable<ShareRecord>,
    username: &str,
    bookmark: Option<&str>,
) -> (r: GetSharesResponse)
    requires
        shares.wf(),
    ensures
        r.shares@.len() <= SHARES_COUNT,
        forall|i: int|
            0 <= i < r.shares@.len() ==> row_sourced(
                shares@,
                #[trigger] r.shares@[i],
                username@,
                match bookmark {
                    Some(b) => Some(b@),
                    None => None,
                },
            ),
        r.shares@.len() < SHARES_COUNT ==> r.bookmark is None,
        r.shares@.len() == SHARES_COUNT ==> (r.bookmark matches Some(bm) && bm@ == r.shares@[
            SHARES_COUNT - 1
        ].path@),
{
    let ghost bm_view: Option<Seq<char>> = match bookmark {
        Some(b) => Some(b@),
        None => None,
    };
    let n = shares.entry_count();
    let mut out: Vec<Share> = Vec::new();
    let mut i: usize = 0;
    while i < n && out.len() < SHARES_COUNT
        invariant
            i <= n,
            n == shares.entries_view().len(),
            shares.wf(),
            out@.len() <= SHARES_COUNT,
            bm_view == (match bookmark {
                Some(b) => Some(b@),
                None => None,
            }),
            forall|j: int|
                0 <= j < out@.len() ==> row_sourced(shares@, #[trigger] out@[j], username@, bm_view),
        decreases n - i,
    {
        let entry = shares.nth(i);
        let with_hit = match &entry.1.shared_with_user {
            Some(w) => crate::strutil::str_equal(w.as_str(), username),
            None => false,
        };
        let past_bookmark = match bookmark {
            Some(b) => crate::strutil::str_lt(b, entry.1.id.as_str()),
            None => true,
        };
        if with_hit && past_bookmark {
            proof {
                shares.lemma_entry_in_map(i as int);
            }
            let row = Share {
                path: entry.1.path.clone(),
                by_user: entry.1.shared_by_user.clone(),
                token: entry.1.id.clone(),
            };
            proof {
                assert(shares@.contains_key(shares.entries_view()[i as int].0@));
                assert(row_sourced(shares@, row, username@, bm_view));
            }
            out.push(row);
        }
        i += 1;
    }
    let bookmark_out = if out.len() == SHARES_COUNT {
        Some(out[out.len() - 1].path.clone())
    } else {
        None
    };
    GetSharesResponse { shares: out, bookmark: bookmark_out }
}

/// Builds one listing page from the records fetched for a user: each row is
/// projected to its path, sharer and share token, and a bookmark is handed
/// back exactly when the page is full.
pub fn shares_page(records: &Vec<ShareRecord>) -> (r: GetSharesResponse)
    requires
        records@.len() <= SHARES_COUNT,
    ensures
        r.shares@.len() == records@.len(),
        forall|i: int|
            0 <= i < records@.len() ==> {
                &&& #[trigger] r.shares@[i].path@ == records@[i]@.path
                &&& r.shares@[i].by_user@ == records@[i]@.shared_by_user
                &&& r.shares@[i].token@ == records@[i]@.id
            },
        records@.len() < SHARES_COUNT ==> r.bookmark is None,
        records@.len() == SHARES_COUNT ==> (r.bookmark matches Some(b) && b@ == records@[
            records@.len() - 1
        ]@.path),
{
    let mut shares: Vec<Share> = Vec::new();
    let mut i: usize = 0;
    while i < records.len()
        invariant
            i <= records@.len(),
            shares@.len() == i,
            forall|j: int|
                0 <= j < i ==> {
                    &&& #[trigger] shares@[j].path@ == records@[j]@.path
                    &&& shares@[j].by_user@ == records@[j]@.shared_by_user
                    &&& shares@[j].token@ == records@[j]@.id
                },
        decreases records@.len() - i,
    {
        let rec = &records[i];
        shares.push(
            Share {
                path: rec.path.clone(),
                by_user: rec.shared_by_user.clone(),
                token: rec.id.clone(),
            },
        );
        i += 1;
    }
    let bookmark = if records.len() == SHARES_COUNT {
        Some(records[records.len() - 1].path.clone())
    } else {
        None
    };
    GetSharesResponse { shares, bookmark }
}

} // verus!
