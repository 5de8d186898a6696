//! Shared data model: opaque credential tokens, user records, and the
//! authorization outcomes that the resolver attaches to a request.

use vstd::prelude::*;

verus! {

/// Number of characters in a freshly generated token or identifier.
pub const ID_LENGTH: usize = 21;

/// Holds exactly the characters of the URL-safe alphabet that generated
/// identifiers are drawn from: letters, digits, `_` and `-`.
pub open spec fn id_char(c: char) -> bool {
    ||| c == '_'
    ||| c == '-'
    ||| '0' <= c && c <= '9'
    ||| 'a' <= c && c <= 'z'
    ||| 'A' <= c && c <= 'Z'
}

/// Relies on `nanoid::format` with `nanoid::alphabet::SAFE` and the default
/// secure generator: the result holds exactly `size` characters, each drawn
/// from that URL-safe alphabet.
#[verifier::external_body]
pub(crate) fn random_id(size: usize) -> (r: String)
    requires
        size >= 1,
    ensures
        r@.len() == size,
        forall|i: int| 0 <= i < r@.len() ==> id_char(#[trigger] r@[i]),
{
    nanoid::format(nanoid::rngs::default, &nanoid::alphabet::SAFE, size)
}

/// An opaque, unguessable credential string. The inner value is kept private
/// so that code has to go through `reveal_secret` or `unwrap` to reach the
/// secret.
pub struct Token(String);

impl View for Token {
    type V = Seq<char>;

    closed spec fn view(&self) -> Seq<char> {
        self.0@
    }
}

impl Token {
    /// Wraps a token value received from a client.
    pub fn read(s: &str) -> (r: Token)
        ensures
            r@ == s@,
    {
        Token(s.to_owned())
    }

    /// Mints a fresh unguessable token.
    pub fn new() -> (r: Token)
        ensures
            r@.len() == ID_LENGTH,
            forall|i: int| 0 <= i < r@.len() ==> id_char(#[trigger] r@[i]),
    {
        Token(random_id(ID_LENGTH))
    }

    /// Drop the token, and reveal the secret inside.
    pub fn reveal_secret(&self) -> (r: &str)
        ensures
            r@ == self@,
    {
        self.0.as_str()
    }

    /// Consumes the token and hands out the secret as a plain string.
    pub fn unwrap(self) -> (r: String)
        ensures
            r@ == self@,
    {
        self.0
    }
}

impl Default for Token {
    fn default() -> (r: Self)
        ensures
            r@.len() == ID_LENGTH,
            forall|i: int| 0 <= i < r@.len() ==> id_char(#[trigger] r@[i]),
    {
        Token::new()
    }
}

impl Clone for Token {
    fn clone(&self) -> (r: Self)
        ensures
            r@ == self@,
    {
        Token(self.0.clone())
    }
}

impl PartialEq for Token {
    fn eq(&self, other: &Self) -> (r: bool)
        ensures
            r == (self@ == other@),
    {
        self.0 == other.0
    }
}

impl vstd::std_specs::cmp::PartialEqSpecImpl for Token {
    open spec fn obeys_eq_spec() -> bool {
        true
    }

    open spec fn eq_spec(&self, other: &Self) -> bool {
        self@ == other@
    }
}

/// Response body for a freshly issued path token.
pub struct PathTokenResponse {
    pub token: Token,
}

/// A username, newtyped so contracts can tell it apart from other strings.
pub struct Username(pub String);

impl View for Username {
    type V = Seq<char>;

    open spec fn view(&self) -> Seq<char> {
        self.0@
    }
}

impl Clone for Username {
    fn clone(&self) -> (r: Self)
        ensures
            r@ == self@,
    {
        Username(self.0.clone())
    }
}

/// A stored path token: the capability itself plus its validity window,
/// in seconds since the epoch.
pub struct PathTokenStored {
    pub token: Token,
    pub created_at: i64,
    pub valid_until: i64,
}

/// A stored access token record: whose login it is and when it was minted,
/// in seconds since the epoch.
pub struct AccessTokenStored {
    pub username: Username,
    pub created_at: i64,
}

/// Type of user. Admins can add and remove users.
#[derive(Clone, Copy, PartialEq, Eq, Structural, Debug)]
pub enum UserType {
    User,
    Admin,
}

impl Default for UserType {
    fn default() -> (r: Self)
        ensures
            r == UserType::User,
    {
        UserType::User
    }
}

impl core::str::FromStr for UserType {
    type Err = crate::error::CLIError;

    fn from_str(from: &str) -> Result<Self, Self::Err> {
        if crate::strutil::eq_ignore_case(from, "user") {
            Ok(UserType::User)
        } else if crate::strutil::eq_ignore_case(from, "admin") {
            Ok(UserType::Admin)
        } else {
            Err(crate::error::CLIError::BadUserType(crate::strutil::lower_ascii(from)))
        }
    }
}

/// The persisted record for one user.
pub struct UserData {
    pub username: String,
    pub password_hash: String,
    pub user_type: UserType,
}

/// The mathematical image of a `UserData` record.
pub struct UserDataView {
    pub username: Seq<char>,
    pub password_hash: Seq<char>,
    pub user_type: UserType,
}

impl View for UserData {
    type V = UserDataView;

    open spec fn view(&self) -> UserDataView {
        UserDataView {
            username: self.username@,
            password_hash: self.password_hash@,
            user_type: self.user_type,
        }
    }
}

impl Clone for UserData {
    fn clone(&self) -> (r: Self)
        ensures
            r@ == self@,
    {
        UserData {
            username: self.username.clone(),
            password_hash: self.password_hash.clone(),
            user_type: self.user_type,
        }
    }
}

/// The state shared by every request: the credential store's tables and the
/// moment the server started, in seconds since the epoch.
pub struct AppState {
    pub started_at: i64,
    /// User data.
    pub users: crate::kv::MemoryTable<UserData>,
    /// Maps access tokens to their records.
    pub access_tokens: crate::kv::MemoryTable<AccessTokenStored>,
    /// Maps file paths to path tokens.
    pub path_tokens: crate::kv::MemoryTable<PathTokenStored>,
}

impl AppState {
    /// All tables are well formed.
    pub open spec fn wf(&self) -> bool {
        self.users.wf() && self.access_tokens.wf() && self.path_tokens.wf()
    }

    /// A fresh state with empty tables.
    pub fn new(started_at: i64) -> (r: AppState)
        ensures
            r.wf(),
            r.started_at == started_at,
            r.users@ == Map::<Seq<char>, UserData>::empty(),
            r.access_tokens@ == Map::<Seq<char>, AccessTokenStored>::empty(),
            r.path_tokens@ == Map::<Seq<char>, PathTokenStored>::empty(),
    {
        AppState {
            started_at,
            users: crate::kv::MemoryTable::new(),
            access_tokens: crate::kv::MemoryTable::new(),
            path_tokens: crate::kv::MemoryTable::new(),
        }
    }

    /// How long the server has been up at the given moment.
    pub fn uptime_seconds(&self, now: i64) -> (r: i64)
        requires
            0 <= self.started_at <= now,
        ensures
            r == now - self.started_at,
    {
        now - self.started_at
    }
}

/// The outcome of resolving the credentials attached to one request:
/// a logged-in user, a path capability, or both.
pub enum Authorized {
    User(Username),
    Path,
    Both(Username),
}

/// The mathematical image of an `Authorized` outcome.
pub enum AuthorizedView {
    User(Seq<char>),
    Path,
    Both(Seq<char>),
}

impl View for Authorized {
    type V = AuthorizedView;

    open spec fn view(&self) -> AuthorizedView {
        match self {
            Authorized::User(u) => AuthorizedView::User(u@),
            Authorized::Path => AuthorizedView::Path,
            Authorized::Both(u) => AuthorizedView::Both(u@),
        }
    }
}

} // verus!
