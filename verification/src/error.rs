//! Error types shared between the command-line layer and the server core.

use vstd::prelude::*;

verus! {

/// An error in the command-line arguments.
#[derive(Debug)]
pub enum CLIError {
    /// The user type was neither `user` nor `admin`.
    BadUserType(String),
}

impl CLIError {
    /// A human-readable description of the error.
    pub fn message(&self) -> (r: String)
        ensures
            r@ == "Bad user type, should be user or admin"@,
    {
        String::from_str("Bad user type, should be user or admin")
    }
}

/// A server-side integrity failure.
#[derive(Debug)]
pub enum ServerError {
    /// The stored record's username does not match the key it was found
    /// under: the user data has been modified or corrupted.
    BadUserData { user: String, expected_user: String },
}

impl ServerError {
    /// A human-readable description of the error.
    pub fn message(&self) -> (r: String)
        ensures
            r@ == "The user data has been modified or corrupted"@,
    {
        String::from_str("The user data has been modified or corrupted")
    }
}

} // verus!
