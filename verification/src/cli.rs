//! The command-line surface: the argument records for managing users, and
//! the context through which a password can be prompted. Parsing the actual
//! command line and touching the terminal happen outside the crate; the
//! records here are what those edges hand in.

use vstd::prelude::*;

use crate::state::UserType;

verus! {

/// Add a new user to the server.
pub struct UserAdd {
    pub username: String,
    /// Avoid passing the password on the command line, because it may be
    /// saved in shell history; leave it out and let the command prompt.
    pub password: Option<String>,
    pub user_type: UserType,
}

/// Remove a user.
pub struct UserRemove {
    pub username: String,
    /// Delete the store for this user. Files will be removed, and may be
    /// irrecoverable.
    pub delete_files: bool,
}

/// The user-management subcommands.
pub enum User {
    UserAdd(UserAdd),
    UserRemove(UserRemove),
}

/// The top-level subcommands.
pub enum Commands {
    User(User),
}

/// The command-line options.
pub struct Opt {
    pub command: Option<Commands>,
    /// The IP address and port to bind to, in the form of `IP:port`.
    pub bind: String,
    /// The data store where user data and tokens are kept.
    pub datastore: String,
    /// The number of workers to launch, must be larger than 0.
    pub workers: usize,
}

/// Where a command gets a password from when none was given on the command
/// line. The terminal-backed implementation lives at the I/O edge; tests can
/// supply a canned one.
pub trait CLIContext {
    /// Prompts for the password of the user being created; the error is a
    /// message for the operator.
    fn prompt_password() -> Result<String, String>;
}

} // verus!
