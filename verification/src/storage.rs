//! Storage access: turning an authorization outcome, a store name and a
//! relative path into a traversal-safe filesystem path, and planning the
//! actions a storage request may perform. The contracts pin down exactly
//! which requests are allowed and which path they touch.

use vstd::prelude::*;

use crate::paths::{
    join_segs, join_path, nonempty_segs, norm_segs, normalize_segments, parse_store_path,
    seg_split, split_path,
};
use crate::state::Authorized;
use crate::strutil::str_equal;

verus! {

/// The filesystem error kinds the engine distinguishes when mapping an error
/// to a response.
#[derive(Clone, Copy, PartialEq, Eq, Structural, Debug)]
pub enum IOErrorKind {
    NotFound,
    AlreadyExists,
    Other,
}

/// Why a storage request was refused.
#[derive(Debug)]
pub enum StorageError {
    /// The request carried no credential that covers this store.
    NotAuthorized,
    /// No token was attached at all.
    TokenMissing,
    /// The filesystem failed underneath the operation.
    IOError(IOErrorKind),
    /// The upload stream itself was malformed.
    UploadError,
    /// The path was malformed or tried to escape its store.
    BadPath,
}

impl StorageError {
    /// The HTTP status code this error maps to at the request boundary.
    pub fn status_code(&self) -> (r: u16)
        ensures
            r == match self {
                StorageError::NotAuthorized => 401u16,
                StorageError::TokenMissing => 400u16,
                StorageError::IOError(IOErrorKind::NotFound) => 404u16,
                StorageError::IOError(IOErrorKind::AlreadyExists) => 400u16,
                StorageError::IOError(IOErrorKind::Other) => 500u16,
                StorageError::UploadError => 400u16,
                StorageError::BadPath => 400u16,
            },
    {
        match self {
            StorageError::NotAuthorized => 401,
            StorageError::TokenMissing => 400,
            StorageError::IOError(IOErrorKind::NotFound) => 404,
            StorageError::IOError(IOErrorKind::AlreadyExists) => 400,
            StorageError::IOError(IOErrorKind::Other) => 500,
            StorageError::UploadError => 400,
            StorageError::BadPath => 400,
        }
    }

    /// A human-readable description of the error.
    pub fn message(&self) -> (r: String)
        ensures
            r@ == match self {
                StorageError::NotAuthorized => "User is not authorized to view this."@,
                StorageError::TokenMissing => "Missing token, please log in and get a token."@,
                StorageError::IOError(_) => "IO error"@,
                StorageError::UploadError => "File upload error"@,
                StorageError::BadPath => "Bad path"@,
            },
    {
        match self {
            StorageError::NotAuthorized => String::from_str("User is not authorized to view this."),
            StorageError::TokenMissing => String::from_str(
                "Missing token, please log in and get a token.",
            ),
            StorageError::IOError(_) => String::from_str("IO error"),
            StorageError::UploadError => String::from_str("File upload error"),
            StorageError::BadPath => String::from_str("Bad path"),
        }
    }
}

/// One row of a folder listing.
pub struct FolderEntry {
    pub is_file: bool,
    pub name: String,
    pub size: u64,
}

/// The body of a folder-listing response.
pub struct FolderResults {
    pub entries: Vec<FolderEntry>,
}

/// The body of an upload response: how many parts were published.
pub struct PutStoragePayload {
    pub files_written: u32,
}

/// The action requested on an existing path.
pub enum StorageAction {
    MakePathToken,
    Move { new_path: String },
    CreateFolder,
}

/// The mathematical image of a `StorageAction`.
pub enum StorageActionView {
    MakePathToken,
    Move { new_path: Seq<char> },
    CreateFolder,
}

impl View for StorageAction {
    type V = StorageActionView;

    open spec fn view(&self) -> StorageActionView {
        match self {
            StorageAction::MakePathToken => StorageActionView::MakePathToken,
            StorageAction::Move { new_path } => StorageActionView::Move { new_path: new_path@ },
            StorageAction::CreateFolder => StorageActionView::CreateFolder,
        }
    }
}

/// Whether this authorization outcome covers the given store: a logged-in
/// user covers exactly their own store, a path capability covers any store
/// because the path token itself already names the authorized subtree.
pub open spec fn authorized_for_store(authorized: Option<Authorized>, store: Seq<char>) -> bool {
    match authorized {
        None => false,
        Some(Authorized::User(u)) => u@ == store,
        Some(Authorized::Path) => true,
        Some(Authorized::Both(_)) => true,
    }
}

/// The filesystem path of a request against a store: the store root when no
/// relative path is given, else the root joined with the normalized relative
/// path. `None` when the relative path would escape the store.
pub open spec fn store_target(store: Seq<char>, rel: Option<Seq<char>>) -> Option<Seq<char>> {
    match rel {
        None => Some("storage/"@ + store),
        Some(p) => match norm_segs(seg_split(p)) {
            None => None,
            Some(segs) => if segs.len() == 0 {
                Some("storage/"@ + store)
            } else {
                Some("storage/"@ + store + seq!['/'] + join_segs(segs))
            },
        },
    }
}

/// The full authorization decision for one storage access.
pub open spec fn authorized_path_spec(
    authorized: Option<Authorized>,
    store: Seq<char>,
    rel: Option<Seq<char>>,
) -> Result<Seq<char>, StorageError> {
    if !authorized_for_store(authorized, store) {
        Err(StorageError::NotAuthorized)
    } else {
        match store_target(store, rel) {
            None => Err(StorageError::BadPath),
            Some(p) => Ok(p),
        }
    }
}

/// Gets the filesystem path of the request, but only if the presented
/// credentials authorize it; a relative path that would resolve above the
/// store root is rejected as a bad path, never returned.
pub fn get_authorized_path(
    authorized: &Option<Authorized>,
    store: &str,
    path: Option<&str>,
) -> (r: Result<String, StorageError>)
    ensures
        ({
            let want = authorized_path_spec(
                *authorized,
                store@,
                match path {
                    Some(p) => Some(p@),
                    None => None,
                },
            );
            match r {
                Ok(p) => want == Ok::<Seq<char>, StorageError>(p@),
                Err(e) => want == Err::<Seq<char>, StorageError>(e),
            }
        }),
{
    let ok = match authorized {
        None => false,
        Some(Authorized::User(u)) => str_equal(u.0.as_str(), store),
        Some(Authorized::Path) => true,
        Some(Authorized::Both(_)) => true,
    };
    if !ok {
        return Err(StorageError::NotAuthorized);
    }
    let mut base = String::new();
    base.append("storage/");
    base.append(store);
    proof {
        assert(base@ =~= "storage/"@ + store@);
    }
    match path {
        None => Ok(base),
        Some(p) => {
            let segs = split_path(p);
            match normalize_segments(&segs) {
                None => Err(StorageError::BadPath),
                Some(normed) => {
                    if normed.len() == 0 {
                        Ok(base)
                    } else {
                        base.push('/');
                        base.append(join_path(&normed).as_str());
                        proof {
                            assert(base@ =~= "storage/"@ + store@ + seq!['/'] + join_segs(
                                normed.deep_view(),
                            ));
                        }
                        Ok(base)
                    }
                },
            }
        },
    }
}

/// Law: a relative path that would resolve above its store's root is always
/// rejected, whatever credential the request carried — as a bad path when
/// the credential covered the store, as an authorization failure otherwise.
pub proof fn lemma_traversal_rejected(
    authorized: Option<Authorized>,
    store: Seq<char>,
    rel: Seq<char>,
)
    requires
        crate::paths::escapes_root(rel),
    ensures
        authorized_path_spec(authorized, store, Some(rel)) == if authorized_for_store(
            authorized,
            store,
        ) {
            Err::<Seq<char>, StorageError>(StorageError::BadPath)
        } else {
            Err::<Seq<char>, StorageError>(StorageError::NotAuthorized)
        },
{
}

/// The `store`/`rest` decomposition of a move target.
pub open spec fn parse_store_spec(p: Seq<char>) -> Option<(Seq<char>, Seq<char>)> {
    let segs = nonempty_segs(seg_split(p));
    if segs.len() == 0 {
        None
    } else {
        Some((segs[0], join_segs(segs.drop_first())))
    }
}

/// What a storage action, once authorized, will do on the filesystem.
pub enum StoragePlan {
    /// Issue a path token for this path.
    MakeToken { path: String },
    /// Rename `from` to `to`, both already authorized.
    MoveFile { from: String, to: String },
    /// Create a folder at this path.
    CreateFolder { path: String },
}

/// The mathematical image of a `StoragePlan`.
pub enum StoragePlanView {
    MakeToken { path: Seq<char> },
    MoveFile { from: Seq<char>, to: Seq<char> },
    CreateFolder { path: Seq<char> },
}

impl View for StoragePlan {
    type V = StoragePlanView;

    open spec fn view(&self) -> StoragePlanView {
        match self {
            StoragePlan::MakeToken { path } => StoragePlanView::MakeToken { path: path@ },
            StoragePlan::MoveFile { from, to } => StoragePlanView::MoveFile {
                from: from@,
                to: to@,
            },
            StoragePlan::CreateFolder { path } => StoragePlanView::CreateFolder { path: path@ },
        }
    }
}

/// The planning decision for a storage action, over the same authorization
/// model as `get_authorized_path`: authorize the source path, and for a move
/// also parse and authorize the target path.
pub open spec fn plan_spec(
    authorized: Option<Authorized>,
    store: Seq<char>,
    rel: Seq<char>,
    action: StorageActionView,
) -> Result<StoragePlanView, StorageError> {
    match authorized_path_spec(authorized, store, Some(rel)) {
        Err(e) => Err(e),
        Ok(src) => match action {
            StorageActionView::MakePathToken => Ok(StoragePlanView::MakeToken { path: src }),
            StorageActionView::CreateFolder => Ok(StoragePlanView::CreateFolder { path: src }),
            StorageActionView::Move { new_path } => match parse_store_spec(new_path) {
                None => Err(StorageError::BadPath),
                Some(dest) => match authorized_path_spec(authorized, dest.0, Some(dest.1)) {
                    Err(e) => Err(e),
                    Ok(to) => Ok(StoragePlanView::MoveFile { from: src, to }),
                },
            },
        },
    }
}

/// Plans a storage action: authorizes the touched paths and says what the
/// filesystem should do, without touching it.
pub fn plan_storage_action(
    authorized: &Option<Authorized>,
    store: &str,
    path: &str,
    action: &StorageAction,
) -> (r: Result<StoragePlan, StorageError>)
    ensures
        ({
            let want = plan_spec(*authorized, store@, path@, action@);
            match r {
                Ok(p) => want == Ok::<StoragePlanView, StorageError>(p@),
                Err(e) => want == Err::<StoragePlanView, StorageError>(e),
            }
        }),
{
    let src = match get_authorized_path(authorized, store, Some(path)) {
        Ok(p) => p,
        Err(e) => {
            return Err(e);
        },
    };
    match action {
        StorageAction::MakePathToken => Ok(StoragePlan::MakeToken { path: src }),
        StorageAction::CreateFolder => Ok(StoragePlan::CreateFolder { path: src }),
        StorageAction::Move { new_path } => {
            let (to_store, to_rel) = match parse_store_path(new_path.as_str()) {
                Some(p) => p,
                None => {
                    return Err(StorageError::BadPath);
                },
            };
            match get_authorized_path(authorized, to_store.as_str(), Some(to_rel.as_str())) {
                Ok(to) => Ok(StoragePlan::MoveFile { from: src, to }),
                Err(e) => Err(e),
            }
        },
    }
}

} // verus!
