//! Password authentication. Hashing goes through scrypt behind trusted
//! wrappers; the verification decision itself — including the decoy record
//! that makes unknown usernames indistinguishable from wrong passwords — is
//! verified code with an exact contract.

use vstd::prelude::*;

use crate::kv::{KVTable, MemoryTable};
use crate::state::{
    AccessTokenStored, Token, UserData, UserDataView, UserType, Username, ID_LENGTH,
};

use scrypt::password_hash::{PasswordHasher, PasswordVerifier, SaltString};

verus! {

/// The decoy username that password checks fall back to, so a lookup miss
/// costs the same hash verification as a wrong password.
pub const USER_NOBODY: &'static str = "nobody";

/// Whether scrypt verification of this password against this self-describing
/// hash string succeeds. The outcome is a pure function of the two strings;
/// it is named here and never written out.
pub uninterp spec fn scrypt_verifies(password: Seq<char>, hash: Seq<char>) -> bool;

/// The cost of the password hash. The output hash records the cost it was
/// made with, so verification is self-describing whatever cost was used;
/// lower costs are acceptable only outside production.
#[derive(Clone, Copy, PartialEq, Eq, Structural, Debug)]
pub struct ScryptCost {
    /// Binary logarithm of the scrypt cost parameter.
    pub log_n: u8,
    pub r: u32,
    pub p: u32,
}

impl ScryptCost {
    /// The recommended production cost, deliberately expensive so stolen
    /// hashes resist brute force.
    pub fn recommended() -> (c: ScryptCost)
        ensures
            c == (ScryptCost { log_n: 17u8, r: 8u32, p: 1u32 }),
    {
        ScryptCost { log_n: 17, r: 8, p: 1 }
    }
}

impl Default for ScryptCost {
    fn default() -> (c: Self)
        ensures
            c == (ScryptCost { log_n: 17u8, r: 8u32, p: 1u32 }),
    {
        ScryptCost::recommended()
    }
}

/// Cost parameters that scrypt is sure to accept: within these bounds every
/// validation `scrypt::Params::new` performs — positive `r` and `p`, `log_n`
/// under the word size, no overflow in `128 * r * N`, `128 * r * p` or
/// `16 * r` versus `log_n`, and `r * p` under `2^30` — passes on this build.
pub open spec fn scrypt_cost_ok(cost: ScryptCost) -> bool {
    &&& 1 <= cost.r <= 1024
    &&& 1 <= cost.p <= 1024
    &&& 1 <= cost.log_n <= 40
    &&& (cost.log_n as int) < (cost.r as int) * 16
}

/// Relies on `scrypt::Scrypt::hash_password_customized` (via the
/// `password_hash` API) with a fresh random salt from `OsRng`: on success the
/// returned PHC string verifies against the same password, as the crate's
/// documented hash/verify round trip shows. Failure is decided by the cost
/// parameters alone — `scrypt::Params::new` validates them deterministically,
/// the generated salt is always acceptable, and the output length is fixed —
/// so within the accepted bounds the call succeeds.
#[verifier::external_body]
pub fn hash_password(password: &str, cost: &ScryptCost) -> (r: Result<String, ()>)
    ensures
        r matches Ok(h) ==> scrypt_verifies(password@, h@),
        scrypt_cost_ok(*cost) ==> r is Ok,
{
    let salt = SaltString::generate(&mut scrypt::password_hash::rand_core::OsRng);
    let params = scrypt::Params::new(cost.log_n, cost.r, cost.p, 32).map_err(|_| ())?;
    let salt = scrypt::password_hash::Salt::try_from(&salt).map_err(|_| ())?;
    let hashed = scrypt::Scrypt.hash_password_customized(
        password.as_bytes(), None, None, params, salt,
    ).map_err(|_| ())?;
    Ok(hashed.to_string())
}

/// Relies on `scrypt::Scrypt::verify_password` (via the `password_hash`
/// API): recomputes the hash with the parameters carried in the PHC string
/// and compares; deterministic in the password and the hash string.
#[verifier::external_body]
pub fn verify_password_hash(password: &str, hash: &str) -> (r: bool)
    ensures
        r == scrypt_verifies(password@, hash@),
{
    match scrypt::password_hash::PasswordHash::new(hash) {
        Ok(parsed) => scrypt::Scrypt.verify_password(password.as_bytes(), &parsed).is_ok(),
        Err(_) => false,
    }
}

/// Whether this string is acceptable as a username. Named after the check in
/// `sanitize_filename`, which refuses path separators, control characters,
/// dot-only names and over-long names.
pub uninterp spec fn username_ok(s: Seq<char>) -> bool;

/// Relies on `sanitize_filename::is_sanitized_with_options` with fixed
/// POSIX options (`windows: false, truncate: true`), so the answer depends
/// on the name alone.
#[verifier::external_body]
pub fn is_username_sanitized(name: &str) -> (r: bool)
    ensures
        r == username_ok(name@),
{
    sanitize_filename::is_sanitized_with_options(
        name,
        sanitize_filename::OptionsForCheck { windows: false, truncate: true },
    )
}

/// A username that fails sanitization, rejected before anything touches
/// persistence.
#[derive(Debug)]
pub enum BadUsername {
    UsernameNotAllowed { username: String },
}

impl BadUsername {
    /// A human-readable description of the rejection.
    pub fn message(&self) -> (r: String)
        ensures
            ({
                match self {
                    BadUsername::UsernameNotAllowed { username } => r@ == "You can't use "@
                        + username@ + " as a username. Try to avoid special characters."@,
                }
            }),
    {
        match self {
            BadUsername::UsernameNotAllowed { username } => {
                let mut out = String::new();
                out.append("You can't use ");
                out.append(username.as_str());
                out.append(" as a username. Try to avoid special characters.");
                proof {
                    assert(out@ =~= "You can't use "@ + username@
                        + " as a username. Try to avoid special characters."@);
                }
                out
            },
        }
    }
}

/// Accepts a username if and only if it passes sanitization.
pub fn validate_username(username: &str) -> (r: Result<(), BadUsername>)
    ensures
        r is Ok <==> username_ok(username@),
        r matches Err(BadUsername::UsernameNotAllowed { username: u }) ==> u@ == username@,
{
    if is_username_sanitized(username) {
        Ok(())
    } else {
        Err(BadUsername::UsernameNotAllowed { username: username.to_owned() })
    }
}

/// A password in transit. The inner value is public so forms can carry it,
/// but the type never renders its contents.
pub struct Password(pub String);

impl View for Password {
    type V = Seq<char>;

    open spec fn view(&self) -> Seq<char> {
        self.0@
    }
}

impl Clone for Password {
    fn clone(&self) -> (r: Self)
        ensures
            r@ == self@,
    {
        Password(self.0.clone())
    }
}

impl Password {
    /// What this value prints as wherever it would be displayed: the secret
    /// inside is never shown.
    pub fn redacted(&self) -> (r: String)
        ensures
            r@ == "[[SECRET]]"@,
    {
        String::from_str("[[SECRET]]")
    }
}

/// A login request.
pub struct Login {
    pub username: String,
    pub password: Password,
}

/// A successful login response.
pub struct LoginResponse {
    pub access_token: crate::state::Token,
}

/// The uniform rejection for a failed login: one error for every failure
/// cause, so the response does not leak which part was wrong.
#[derive(Debug)]
pub struct LoginFailed;

impl LoginFailed {
    /// The HTTP status code this rejection maps to.
    pub fn status_code(&self) -> (r: u16)
        ensures
            r == 401u16,
    {
        401
    }

    /// A human-readable description of the rejection.
    pub fn message(&self) -> (r: String)
        ensures
            r@ == "Login failed, incorrect username or password."@,
    {
        String::from_str("Login failed, incorrect username or password.")
    }
}

/// Why password verification failed. `BadUserData` marks a corrupted record
/// and is surfaced to clients exactly like a bad credential.
#[derive(Debug)]
pub enum VerifyError {
    /// The stored record's username does not match the lookup key.
    BadUserData { expected_user: String, user: String },
    /// The credentials did not check out.
    BadCredentials,
}

/// The password-verification decision: which record is checked (the stored
/// one, or the decoy when the lookup missed), the integrity check on the
/// record's username, and the scrypt comparison.
pub open spec fn verify_pass_spec(
    username: Seq<char>,
    password: Seq<char>,
    looked_up: Option<UserDataView>,
    nobody: UserDataView,
) -> Result<(), VerifyErrorView> {
    let record = match looked_up {
        Some(u) => u,
        None => nobody,
    };
    if record.username != username && record.username != "nobody"@ {
        Err(VerifyErrorView::BadUserData { expected_user: username, user: record.username })
    } else if scrypt_verifies(password, record.password_hash) {
        Ok(())
    } else {
        Err(VerifyErrorView::BadCredentials)
    }
}

/// The mathematical image of a `VerifyError`.
pub enum VerifyErrorView {
    BadUserData { expected_user: Seq<char>, user: Seq<char> },
    BadCredentials,
}

impl View for VerifyError {
    type V = VerifyErrorView;

    open spec fn view(&self) -> VerifyErrorView {
        match self {
            VerifyError::BadUserData { expected_user, user } => VerifyErrorView::BadUserData {
                expected_user: expected_user@,
                user: user@,
            },
            VerifyError::BadCredentials => VerifyErrorView::BadCredentials,
        }
    }
}

/// Verifies a password against the record a lookup produced. When the lookup
/// missed, the decoy record is checked instead, so both cases perform the
/// same hash verification and return the same error.
pub fn verify_pass(
    username: &str,
    password: &Password,
    looked_up: Option<&UserData>,
    nobody: &UserData,
) -> (r: Result<(), VerifyError>)
    ensures
        ({
            let want = verify_pass_spec(
                username@,
                password@,
                match looked_up {
                    Some(u) => Some(u@),
                    None => None,
                },
                nobody@,
            );
            match r {
                Ok(()) => want == Ok::<(), VerifyErrorView>(()),
                Err(e) => want == Err::<(), VerifyErrorView>(e@),
            }
        }),
{
    let record = match looked_up {
        Some(u) => u,
        None => nobody,
    };
    let name_matches = crate::strutil::str_equal(record.username.as_str(), username);
    let is_nobody = crate::strutil::str_equal(record.username.as_str(), USER_NOBODY);
    if !name_matches && !is_nobody {
        return Err(VerifyError::BadUserData {
            expected_user: username.to_owned(),
            user: record.username.clone(),
        });
    }
    if verify_password_hash(password.0.as_str(), record.password_hash.as_str()) {
        Ok(())
    } else {
        Err(VerifyError::BadCredentials)
    }
}

/// A fresh access token collided with a stored one. The token is drawn from
/// an unguessable space, so this signals a broken randomness source: a fatal
/// invariant violation, not a per-request error.
#[derive(Debug)]
pub enum TokenError {
    Collision,
}

/// Mints a fresh access token for the user and records it with its creation
/// time. The token is random, so the contract states what holds of every
/// outcome: either the token was free and is now mapped to the user, or the
/// draw collided — which can only happen when the table already holds some
/// token-length key — and nothing changed.
pub fn make_token(
    access_tokens: &mut MemoryTable<AccessTokenStored>,
    username: &str,
    now: i64,
) -> (r: Result<Token, TokenError>)
    requires
        old(access_tokens).wf(),
    ensures
        final(access_tokens).wf(),
        match r {
            Ok(t) => !old(access_tokens)@.contains_key(t@) && final(access_tokens)@.contains_key(
                t@,
            ) && final(access_tokens)@[t@].username@ == username@ && final(access_tokens)@[t@].created_at == now && final(access_tokens)@.remove(t@) == old(access_tokens)@
                && t@.len() == ID_LENGTH,
            Err(_) => (exists|t: Seq<char>|
                old(access_tokens)@.contains_key(t) && t.len() == ID_LENGTH) && final(access_tokens)@ == old(access_tokens)@,
        },
{
    let access_token = Token::new();
    // Impossibly unlikely, but a token collision would be extremely bad, so
    // check anyway: it would mean the randomness source is broken.
    if access_tokens.get(access_token.reveal_secret()).is_some() {
        proof {
            assert(old(access_tokens)@.contains_key(access_token@) && access_token@.len()
                == ID_LENGTH);
        }
        return Err(TokenError::Collision);
    }
    access_tokens.put(
        access_token.reveal_secret(),
        AccessTokenStored { username: Username(username.to_owned()), created_at: now },
    );
    proof {
        assert(access_tokens@.remove(access_token@) =~= old(access_tokens)@);
    }
    Ok(access_token)
}

/// Builds the record for a new user: hashes the password and fills the
/// record in; nothing is persisted here. Succeeds whenever the cost
/// parameters are within scrypt's accepted bounds.
pub fn create_user(username: &str, password: &str, user_type: UserType, cost: &ScryptCost) -> (r:
    Result<UserData, ()>)
    ensures
        r matches Ok(u) ==> u@.username == username@ && scrypt_verifies(
            password@,
            u@.password_hash,
        ) && u@.user_type == user_type,
        scrypt_cost_ok(*cost) ==> r is Ok,
{
    let password_hash = match hash_password(password, cost) {
        Ok(h) => h,
        Err(()) => {
            return Err(());
        },
    };
    Ok(UserData { username: username.to_owned(), password_hash, user_type })
}

/// Why adding a user failed.
#[derive(Debug)]
pub enum AddUserError {
    /// The username fails sanitization.
    NotAllowed(BadUsername),
    /// Password hashing failed underneath.
    HashFailed,
}

/// Validates the username, hashes the password and stores the new record.
/// Succeeds exactly when the username is acceptable and hashing worked; on
/// success the stored record carries a hash that verifies the password.
pub fn add_new_user(
    username: &str,
    password: &str,
    user_type: UserType,
    users: &mut MemoryTable<UserData>,
    cost: &ScryptCost,
) -> (r: Result<(), AddUserError>)
    requires
        old(users).wf(),
    ensures
        final(users).wf(),
        match r {
            Ok(()) => username_ok(username@) && final(users)@.contains_key(username@) && ({
                let u = final(users)@[username@]@;
                u.username == username@ && scrypt_verifies(password@, u.password_hash)
                    && u.user_type == user_type && final(users)@.remove(username@) == old(users)@.remove(username@)
            }),
            Err(AddUserError::NotAllowed(_)) => !username_ok(username@) && final(users)@ == old(users)@,
            Err(AddUserError::HashFailed) => username_ok(username@) && !scrypt_cost_ok(*cost)
                && final(users)@ == old(users)@,
        },
        username_ok(username@) && scrypt_cost_ok(*cost) ==> r is Ok,
{
    if let Err(e) = validate_username(username) {
        return Err(AddUserError::NotAllowed(e));
    }
    let data = match create_user(username, password, user_type, cost) {
        Ok(d) => d,
        Err(()) => {
            return Err(AddUserError::HashFailed);
        },
    };
    users.put(username, data);
    proof {
        assert(users@.remove(username@) =~= old(users)@.remove(username@));
    }
    Ok(())
}

/// Creates the decoy "nobody" record, used to resist user probing: a random,
/// never-revealed password, stored only if no such record exists yet. After
/// a successful call the decoy is in place and real records are untouched.
pub fn create_nobody(users: &mut MemoryTable<UserData>, cost: &ScryptCost) -> (r: Result<(), ()>)
    requires
        old(users).wf(),
    ensures
        final(users).wf(),
        match r {
            Ok(()) => final(users)@.contains_key("nobody"@) && final(users)@.remove("nobody"@)
                == old(users)@.remove("nobody"@) && final(users)@["nobody"@]@.username
                == "nobody"@ && ((old(users)@.contains_key("nobody"@) && old(users)@["nobody"@]@.username == "nobody"@) ==> final(users)@ == old(users)@),
            Err(()) => !scrypt_cost_ok(*cost) && final(users)@ == old(users)@,
        },
        scrypt_cost_ok(*cost) ==> r is Ok,
{
    if let Some(existing) = users.get(USER_NOBODY) {
        if crate::strutil::str_equal(existing.username.as_str(), USER_NOBODY) {
            proof {
                assert(users@ =~= old(users)@);
                assert(users@.remove("nobody"@) =~= old(users)@.remove("nobody"@));
            }
            return Ok(());
        }
    }
    let password = crate::state::random_id(ID_LENGTH);
    let data = match create_user(USER_NOBODY, password.as_str(), UserType::User, cost) {
        Ok(d) => d,
        Err(()) => {
            return Err(());
        },
    };
    users.put(USER_NOBODY, data);
    proof {
        assert(users@.remove("nobody"@) =~= old(users)@.remove("nobody"@));
    }
    Ok(())
}

/// The keys among the first `j` of this list.
pub open spec fn key_prefix_set(d: Seq<String>, j: int) -> Set<Seq<char>> {
    Set::new(|k: Seq<char>| exists|m: int| 0 <= m < j && d[m]@ == k)
}

/// Removes every access token that maps to this user: the cascade that
/// deleting a user triggers, so no orphaned token keeps granting access.
pub fn purge_user_tokens(access_tokens: &mut MemoryTable<AccessTokenStored>, username: &str)
    requires
        old(access_tokens).wf(),
    ensures
        final(access_tokens).wf(),
        final(access_tokens)@ == old(access_tokens)@.remove_keys(
            Set::new(
                |k: Seq<char>|
                    old(access_tokens)@.contains_key(k) && old(access_tokens)@[k].username@
                        == username@,
            ),
        ),
{
    let ghost old_map = old(access_tokens)@;
    let n = access_tokens.entry_count();
    let mut doomed: Vec<String> = Vec::new();
    let mut i: usize = 0;
    while i < n
        invariant
            i <= n,
            n == access_tokens.entries_view().len(),
            access_tokens.wf(),
            access_tokens@ == old_map,
            access_tokens.entries_view() == old(access_tokens).entries_view(),
            forall|m: int|
                0 <= m < doomed@.len() ==> old_map.contains_key(#[trigger] doomed@[m]@)
                    && old_map[doomed@[m]@].username@ == username@,
            forall|j: int|
                0 <= j < i && (#[trigger] access_tokens.entries_view()[j].1).username@
                    == username@ ==> key_prefix_set(doomed@, doomed@.len() as int).contains(
                    access_tokens.entries_view()[j].0@,
                ),
        decreases n - i,
    {
        let entry = access_tokens.nth(i);
        if crate::strutil::str_equal(entry.1.username.0.as_str(), username) {
            proof {
                access_tokens.lemma_entry_in_map(i as int);
            }
            let ghost d0 = doomed@;
            doomed.push(entry.0.clone());
            proof {
                assert(doomed@[d0.len() as int]@ == access_tokens.entries_view()[i as int].0@);
                assert forall|j: int|
                    0 <= j < i + 1 && (#[trigger] access_tokens.entries_view()[j].1).username@
                        == username@ implies key_prefix_set(
                    doomed@,
                    doomed@.len() as int,
                ).contains(access_tokens.entries_view()[j].0@) by {
                    if j < i {
                        assert(key_prefix_set(d0, d0.len() as int).contains(
                            access_tokens.entries_view()[j].0@,
                        ));
                        let m = choose|m: int|
                            0 <= m < d0.len() && d0[m]@ == access_tokens.entries_view()[j].0@;
                        assert(doomed@[m]@ == access_tokens.entries_view()[j].0@);
                    }
                }
            }
        }
        i += 1;
    }
    proof {
        assert forall|k: Seq<char>|
            old_map.contains_key(k) && (#[trigger] old_map[k]).username@
                == username@ implies key_prefix_set(doomed@, doomed@.len() as int).contains(
            k,
        ) by {
            access_tokens.lemma_key_has_entry(k);
        }
    }
    let total = doomed.len();
    let mut j: usize = 0;
    while j < total
        invariant
            j <= total,
            total == doomed@.len(),
            access_tokens.wf(),
            access_tokens@ =~= old_map.remove_keys(key_prefix_set(doomed@, j as int)),
        decreases total - j,
    {
        access_tokens.delete(doomed[j].as_str());
        proof {
            assert(access_tokens@ =~= old_map.remove_keys(key_prefix_set(doomed@, j + 1)));
        }
        j += 1;
    }
    proof {
        let target = Set::new(
            |k: Seq<char>| old_map.contains_key(k) && old_map[k].username@ == username@,
        );
        assert(access_tokens@ =~= old_map.remove_keys(target));
    }
}

/// Removes a user's record and cascades to their access tokens. Whether the
/// on-disk store is also removed is the caller's decision, made at the
/// filesystem edge.
pub fn delete_user(
    users: &mut MemoryTable<UserData>,
    access_tokens: &mut MemoryTable<AccessTokenStored>,
    username: &str,
)
    requires
        old(users).wf(),
        old(access_tokens).wf(),
    ensures
        final(users).wf(),
        final(access_tokens).wf(),
        final(users)@ == old(users)@.remove(username@),
        final(access_tokens)@ == old(access_tokens)@.remove_keys(
            Set::new(
                |k: Seq<char>|
                    old(access_tokens)@.contains_key(k) && old(access_tokens)@[k].username@
                        == username@,
            ),
        ),
{
    users.delete(username);
    purge_user_tokens(access_tokens, username);
}

/// Why a login did not produce a token: the uniform credential rejection, or
/// a fatal token collision that the boundary must treat as a broken process,
/// never as a client error.
#[derive(Debug)]
pub enum LoginError {
    Failed(LoginFailed),
    Fatal(TokenError),
}

/// Logs a user in: checks the password — against the decoy record when the
/// username is unknown — and on success mints and records an access token
/// stamped with `now`. A bad credential is the uniform `Failed` rejection; a
/// token collision surfaces as `Fatal` and is owed never to happen while the
/// table holds no token-length key.
pub fn login(state: &mut crate::state::AppState, data: &Login, now: i64) -> (r: Result<
    LoginResponse,
    LoginError,
>)
    requires
        old(state).wf(),
        old(state).users@.contains_key("nobody"@),
    ensures
        final(state).wf(),
        final(state).users == old(state).users,
        final(state).path_tokens == old(state).path_tokens,
        ({
            let verdict = verify_pass_spec(
                data.username@,
                data.password@,
                if old(state).users@.contains_key(data.username@) {
                    Some(old(state).users@[data.username@]@)
                } else {
                    None
                },
                old(state).users@["nobody"@]@,
            );
            match r {
                Ok(resp) => verdict == Ok::<(), VerifyErrorView>(()) && ({
                    let t = resp.access_token@;
                    !old(state).access_tokens@.contains_key(t) && final(state).access_tokens@.contains_key(t) && final(state).access_tokens@[t].username@
                        == data.username@ && final(state).access_tokens@[t].created_at == now
                        && final(state).access_tokens@.remove(t) == old(state).access_tokens@
                }),
                Err(LoginError::Failed(_)) => verdict is Err && final(state).access_tokens@
                    == old(state).access_tokens@,
                Err(LoginError::Fatal(_)) => (exists|t: Seq<char>|
                    old(state).access_tokens@.contains_key(t) && t.len() == ID_LENGTH) && final(state).access_tokens@ == old(state).access_tokens@,
            }
        }),
{
    let looked_up = state.users.get(data.username.as_str());
    let verdict = match looked_up {
        Some(record) => {
            // the decoy is not consulted when the record was found; hand the
            // record itself in as the fallback rather than looking it up
            verify_pass(data.username.as_str(), &data.password, Some(record), record)
        },
        None => {
            let nobody = match state.users.get(USER_NOBODY) {
                Some(n) => n,
                None => vstd::pervasive::unreached(),
            };
            verify_pass(data.username.as_str(), &data.password, None, nobody)
        },
    };
    if verdict.is_err() {
        return Err(LoginError::Failed(LoginFailed));
    }
    match make_token(&mut state.access_tokens, data.username.as_str(), now) {
        Ok(access_token) => Ok(LoginResponse { access_token }),
        Err(e) => Err(LoginError::Fatal(e)),
    }
}

/// Law: a login attempt for an unknown username and one for a known username
/// with a wrong password return the very same error. The decoy record stands
/// in for the missing one, so neither the error kind nor the hash check
/// performed distinguishes the two cases.
pub proof fn lemma_verify_rejects_alike(
    unknown_user: Seq<char>,
    password_a: Seq<char>,
    known: UserDataView,
    password_b: Seq<char>,
    nobody: UserDataView,
)
    requires
        nobody.username == "nobody"@,
        !scrypt_verifies(password_a, nobody.password_hash),
        known.username != "nobody"@,
        !scrypt_verifies(password_b, known.password_hash),
    ensures
        verify_pass_spec(unknown_user, password_a, None, nobody) == Err::<(), VerifyErrorView>(
            VerifyErrorView::BadCredentials,
        ),
        verify_pass_spec(known.username, password_b, Some(known), nobody) == Err::<
            (),
            VerifyErrorView,
        >(VerifyErrorView::BadCredentials),
{
}

} // verus!
