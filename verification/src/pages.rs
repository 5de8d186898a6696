//! The javascript-free basic interface: the data each page renders from, and
//! the small computations behind the pages — the parent link of a folder, the
//! login cookie's value, the redirect back into a folder. Rendering the HTML
//! and speaking HTTP happen outside the crate.

use vstd::prelude::*;

use crate::auth::Password;
use crate::paths::{join_segs, join_path, nonempty_segs, seg_split, split_path};
use crate::state::Token;
use crate::storage::FolderEntry;

verus! {

/// The login page; it renders from nothing.
pub struct LoginPage {}

/// The not-found page; it renders from nothing.
pub struct NotFoundPage {}

/// The login form's fields.
pub struct LoginFormData {
    pub username: String,
    pub password: Password,
}

/// What the folder listing page renders from.
pub struct FolderListPage {
    pub username: String,
    pub path: String,
    pub parent_path: Option<String>,
    pub folder_list: Vec<FolderEntry>,
}

/// What the error page renders from.
pub struct ErrorPage {
    pub error_text: Option<String>,
    pub redirect_link: String,
}

/// The create-folder form's fields.
pub struct CreateFolderForm {
    pub folder: String,
}

/// The folder a path's parent link goes up to: the path with its last
/// nonempty segment dropped, or nothing when there is no parent to go up to.
pub open spec fn parent_path_spec(path: Seq<char>) -> Option<Seq<char>> {
    let segs = nonempty_segs(seg_split(path));
    if segs.len() <= 1 {
        None
    } else {
        Some(join_segs(segs.drop_last()))
    }
}

/// Computes the parent link of a folder path.
pub fn parent_path_of(path: &str) -> (r: Option<String>)
    ensures
        match r {
            Some(p) => parent_path_spec(path@) == Some(p@),
            None => parent_path_spec(path@) is None,
        },
{
    let all = split_path(path);
    let mut kept: Vec<String> = Vec::new();
    let mut i: usize = 0;
    while i < all.len()
        invariant
            i <= all.len(),
            kept.deep_view() =~= nonempty_segs(all.deep_view().subrange(0, i as int)),
        decreases all.len() - i,
    {
        proof {
            assert(all.deep_view().subrange(0, i + 1).drop_last() =~= all.deep_view().subrange(
                0,
                i as int,
            ));
            assert(all.deep_view().subrange(0, i + 1).last() == all.deep_view()[i as int]);
        }
        if !all[i].as_str().is_empty() {
            kept.push(all[i].clone());
        }
        i += 1;
    }
    proof {
        assert(all.deep_view().subrange(0, all.deep_view().len() as int) =~= all.deep_view());
    }
    if kept.len() <= 1 {
        return None;
    }
    kept.pop();
    proof {
        assert(kept.deep_view() =~= nonempty_segs(seg_split(path@)).drop_last());
    }
    Some(join_path(&kept))
}

/// The value the login cookie is set to: the token, marked same-site-strict
/// so the browser only sends it on same-site requests.
pub fn login_cookie_value(token: &Token) -> (r: String)
    ensures
        r@ == token@ + "; SameSite=Strict"@,
{
    let mut out = String::new();
    out.append(token.reveal_secret());
    out.append("; SameSite=Strict");
    proof {
        assert(out@ =~= token@ + "; SameSite=Strict"@);
    }
    out
}

/// The location of a folder in the basic interface: `/basic/store/path`.
pub fn basic_folder_location(store: &str, path: &str) -> (r: String)
    ensures
        r@ == "/basic/"@ + store@ + seq!['/'] + path@,
{
    let mut out = String::new();
    out.append("/basic/");
    out.append(store);
    out.push('/');
    out.append(path);
    proof {
        assert(out@ =~= "/basic/"@ + store@ + seq!['/'] + path@);
    }
    out
}

/// The name the folder listing shows for whoever made the request: the
/// logged-in user's name, or a placeholder when a path capability alone
/// granted access.
pub fn display_username(authorized: &crate::state::Authorized) -> (r: String)
    ensures
        r@ == match authorized {
            crate::state::Authorized::User(u) => u@,
            crate::state::Authorized::Path => "anonymous"@,
            crate::state::Authorized::Both(u) => u@,
        },
{
    match authorized {
        crate::state::Authorized::User(u) => u.0.clone(),
        crate::state::Authorized::Path => String::from_str("anonymous"),
        crate::state::Authorized::Both(u) => u.0.clone(),
    }
}

} // verus!
