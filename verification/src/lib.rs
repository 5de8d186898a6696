//! Core engine of a single-node personal file server: authentication,
//! token-based authorization, traversal-safe path handling, collision-safe
//! upload naming, sharing and rate limiting. Filesystem and network I/O live
//! outside this crate; the functions here turn the values read at those edges
//! into decisions, and their contracts state exactly which decisions.

use vstd::prelude::*;

pub mod state;
pub mod strutil;
pub mod paths;
pub mod storage;
pub mod auth;
pub mod kv;
pub mod share;
pub mod auth_middleware;
pub mod upload;
pub mod ratelimit;
pub mod pages;
pub mod cli;
pub mod error;

verus! {

/// Directory under which every user's store lives.
pub const STORAGE: &'static str = "storage";

/// Directory where user records are kept by the file-backed store.
pub const USERS_DIR: &'static str = "users";

/// Directory that holds the login and page banner files.
pub const BANNER: &'static str = "banner";

} // verus!
