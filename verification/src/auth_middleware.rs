//! Request authorization: merging whatever credentials a request presented —
//! an access token, a path token, a share token — into one decision. Every
//! credential kind is resolved independently, so an invalid token of one kind
//! never suppresses a valid token of another.

use vstd::prelude::*;

use crate::kv::{KVTable, MemoryTable};
use crate::paths::{canonical_path, canonicalize_path, char_split, split_on};
use crate::share::ShareRecord;
use crate::state::{
    AccessTokenStored, Authorized, AuthorizedView, PathTokenStored, Token, Username, ID_LENGTH,
};

verus! {

/// How long an issued path token stays valid, in seconds.
pub const PATH_TOKENS_VALID_SECONDS: i64 = 24 * 60 * 60;

/// The name of the cookie that carries the access token.
pub const USER_COOKIE_NAME: &'static str = "bulgur-cloud-auth";

/// The name of the cookie that carries a share token.
pub const SHARE_COOKIE_NAME: &'static str = "bulgur-cloud-share";

/// What percent-decoding a string yields: the decoded string, or nothing
/// when the escapes do not decode to text. Named for
/// `urlencoding::decode`; deterministic in the input.
pub uninterp spec fn url_decoded(s: Seq<char>) -> Option<Seq<char>>;

/// Relies on `urlencoding::decode`: resolves `%xx` escapes, leaves every
/// other character alone — in particular a string without `%` comes back
/// unchanged — and fails only when the decoded bytes are not text.
#[verifier::external_body]
pub fn url_decode(s: &str) -> (r: Option<String>)
    ensures
        (r is Some) == (url_decoded(s@) is Some),
        r matches Some(d) ==> url_decoded(s@) == Some(d@),
        r matches Some(d) ==> ((forall|i: int| 0 <= i < s@.len() ==> s@[i] != '%') ==> d@ == s@),
        (forall|i: int| 0 <= i < s@.len() ==> s@[i] != '%') ==> r is Some,
{
    match urlencoding::decode(s) {
        Ok(d) => Some(d.into_owned()),
        Err(_) => None,
    }
}

/// The rejection when no presented credential authorizes the request.
#[derive(Debug)]
pub enum AuthMiddlewareError {
    Failed,
}

impl AuthMiddlewareError {
    /// The HTTP status code this rejection maps to.
    pub fn status_code(&self) -> (r: u16)
        ensures
            r == 401u16,
    {
        401
    }

    /// A human-readable description of the rejection.
    pub fn message(&self) -> (r: String)
        ensures
            r@ == "Auth token is missing or invalid, but authorization is required for this route."@,
    {
        String::from_str(
            "Auth token is missing or invalid, but authorization is required for this route.",
        )
    }
}

/// The key under which a path token for this path is stored: the request
/// path in canonical form.
pub open spec fn path_token_key(path: Seq<char>) -> Option<Seq<char>> {
    match url_decoded(path) {
        None => None,
        Some(decoded) => canonical_path(decoded),
    }
}

/// The user a presented access token resolves to, if any.
pub open spec fn user_for_token(
    access_tokens: Map<Seq<char>, AccessTokenStored>,
    token: Option<Seq<char>>,
) -> Option<Seq<char>> {
    match token {
        None => None,
        Some(t) => if access_tokens.contains_key(t) {
            Some(access_tokens[t].username@)
        } else {
            None
        },
    }
}

/// Whether a presented path token grants this request: the request path must
/// decode and normalize to exactly the path the token was stored for — never
/// a string-prefix comparison — and the token must not have expired.
pub open spec fn path_token_grants(
    path_tokens: Map<Seq<char>, PathTokenStored>,
    presented: Seq<char>,
    request_path: Seq<char>,
    now: i64,
) -> bool {
    match path_token_key(request_path) {
        None => false,
        Some(key) => path_tokens.contains_key(key) && path_tokens[key].token@ == presented
            && now <= path_tokens[key].valid_until,
    }
}

/// Whether a presented share token grants this request: the share row must
/// exist, must not have expired when it carries an expiry, and — since a
/// share is a record pointing at one path — the request path must decode and
/// normalize to exactly the shared path, never anything beside it.
pub open spec fn share_grants(
    shares: Map<Seq<char>, ShareRecord>,
    presented: Seq<char>,
    request_path: Seq<char>,
    now: i64,
) -> bool {
    &&& shares.contains_key(presented)
    &&& (match shares[presented].expires_at {
        Some(e) => now <= e,
        None => true,
    })
    &&& path_token_key(request_path) == Some(seq!['/'] + shares[presented].path@)
}

/// The merged authorization decision: each credential kind resolved
/// independently, then combined — user and path capability together, either
/// alone, or nothing.
pub open spec fn verify_auth_spec(
    access_tokens: Map<Seq<char>, AccessTokenStored>,
    path_tokens: Map<Seq<char>, PathTokenStored>,
    shares: Map<Seq<char>, ShareRecord>,
    user_token: Option<Seq<char>>,
    path_token: Option<Seq<char>>,
    share_token: Option<Seq<char>>,
    request_path: Seq<char>,
    now: i64,
) -> Option<AuthorizedView> {
    let user = user_for_token(access_tokens, user_token);
    let path_ok = (match path_token {
        Some(p) => path_token_grants(path_tokens, p, request_path, now),
        None => false,
    }) || (match share_token {
        Some(s) => share_grants(shares, s, request_path, now),
        None => false,
    });
    match user {
        Some(u) => if path_ok {
            Some(AuthorizedView::Both(u))
        } else {
            Some(AuthorizedView::User(u))
        },
        None => if path_ok {
            Some(AuthorizedView::Path)
        } else {
            None
        },
    }
}

/// Law: a stored path token does grant the very path it was stored under,
/// as long as it has not expired: for a key in canonical form that
/// percent-decodes to itself, a request for exactly that key is authorized.
/// Together with `lemma_path_token_exact_scope` this pins the scope of a
/// path token to precisely its own path.
pub proof fn lemma_path_token_grants_own_path(
    path_tokens: Map<Seq<char>, PathTokenStored>,
    key: Seq<char>,
    now: i64,
)
    requires
        path_tokens.contains_key(key),
        url_decoded(key) == Some(key),
        canonical_path(key) == Some(key),
        now <= path_tokens[key].valid_until,
    ensures
        path_token_grants(path_tokens, path_tokens[key].token@, key, now),
{
}

/// Law: a share token authorizes only requests that decode and normalize to
/// exactly the path the share points at; a sibling name or a path that dodges
/// through `..` normalizes elsewhere and is not granted.
pub proof fn lemma_share_token_exact_scope(
    shares: Map<Seq<char>, ShareRecord>,
    presented: Seq<char>,
    request_path: Seq<char>,
    now: i64,
)
    requires
        share_grants(shares, presented, request_path, now),
    ensures
        path_token_key(request_path) == Some(seq!['/'] + shares[presented].path@),
{
}

/// Law: an invalid credential of one kind never suppresses a valid one of
/// another — presenting an access token that resolves to nobody leaves the
/// decision exactly as if no access token had been presented at all.
pub proof fn lemma_invalid_token_does_not_suppress(
    access_tokens: Map<Seq<char>, AccessTokenStored>,
    path_tokens: Map<Seq<char>, PathTokenStored>,
    shares: Map<Seq<char>, ShareRecord>,
    bad_user_token: Seq<char>,
    path_token: Option<Seq<char>>,
    share_token: Option<Seq<char>>,
    request_path: Seq<char>,
    now: i64,
)
    requires
        !access_tokens.contains_key(bad_user_token),
    ensures
        verify_auth_spec(
            access_tokens,
            path_tokens,
            shares,
            Some(bad_user_token),
            path_token,
            share_token,
            request_path,
            now,
        ) == verify_auth_spec(
            access_tokens,
            path_tokens,
            shares,
            None,
            path_token,
            share_token,
            request_path,
            now,
        ),
{
}

/// Resolves the credentials attached to one request. Every credential kind
/// is looked up on its own; the request is rejected exactly when none of
/// them grants anything.
pub fn verify_auth(
    access_tokens: &MemoryTable<AccessTokenStored>,
    path_tokens: &MemoryTable<PathTokenStored>,
    shares: &MemoryTable<ShareRecord>,
    user_token: Option<&Token>,
    path_token: Option<&Token>,
    share_token: Option<&Token>,
    request_path: &str,
    now: i64,
) -> (r: Result<Authorized, AuthMiddlewareError>)
    requires
        access_tokens.wf(),
        path_tokens.wf(),
        shares.wf(),
    ensures
        ({
            let want = verify_auth_spec(
                access_tokens@,
                path_tokens@,
                shares@,
                match user_token {
                    Some(t) => Some(t@),
                    None => None,
                },
                match path_token {
                    Some(t) => Some(t@),
                    None => None,
                },
                match share_token {
                    Some(t) => Some(t@),
                    None => None,
                },
                request_path@,
                now,
            );
            match r {
                Ok(a) => want == Some(a@),
                Err(_) => want is None,
            }
        }),
{
    let username: Option<Username> = match user_token {
        Some(t) => match access_tokens.get(t.reveal_secret()) {
            Some(record) => Some(record.username.clone()),
            None => None,
        },
        None => None,
    };

    // the request path's canonical key, shared by the path-token and the
    // share resolutions
    let request_key: Option<String> = match url_decode(request_path) {
        Some(decoded) => canonicalize_path(decoded.as_str()),
        None => None,
    };

    let path_token_ok: bool = match path_token {
        Some(presented) => {
            match &request_key {
                Some(key) => match path_tokens.get(key.as_str()) {
                    Some(stored) => stored.token.eq(presented) && now <= stored.valid_until,
                    None => false,
                },
                None => false,
            }
        },
        None => false,
    };

    let share_ok: bool = match share_token {
        Some(presented) => match shares.get(presented.reveal_secret()) {
            Some(record) => {
                let fresh = match record.expires_at {
                    Some(e) => now <= e,
                    None => true,
                };
                let path_matches = match &request_key {
                    Some(key) => {
                        let mut shared = String::new();
                        shared.push('/');
                        shared.append(record.path.as_str());
                        proof {
                            assert(shared@ =~= seq!['/'] + record.path@);
                        }
                        crate::strutil::str_equal(key.as_str(), shared.as_str())
                    },
                    None => false,
                };
                fresh && path_matches
            },
            None => false,
        },
        None => false,
    };

    let path_ok = path_token_ok || share_ok;
    match username {
        Some(u) => if path_ok {
            Ok(Authorized::Both(u))
        } else {
            Ok(Authorized::User(u))
        },
        None => if path_ok {
            Ok(Authorized::Path)
        } else {
            Err(AuthMiddlewareError::Failed)
        },
    }
}

/// Issues a path token for an authorized path: stores the fresh token under
/// the path's canonical key (the path prefixed with `/`), stamped with its
/// creation time and validity window.
pub fn make_path_token(
    path_tokens: &mut MemoryTable<PathTokenStored>,
    store_path: &str,
    now: i64,
) -> (r: Token)
    requires
        old(path_tokens).wf(),
        0 <= now <= i64::MAX - PATH_TOKENS_VALID_SECONDS,
    ensures
        final(path_tokens).wf(),
        r@.len() == ID_LENGTH,
        ({
            let key = seq!['/'] + store_path@;
            final(path_tokens)@.contains_key(key) && final(path_tokens)@.remove(key) == old(
                path_tokens,
            )@.remove(key) && ({
                let stored = final(path_tokens)@[key];
                stored.token@ == r@ && stored.created_at == now && stored.valid_until == now
                    + PATH_TOKENS_VALID_SECONDS
            })
        }),
{
    let token = Token::new();
    let mut key = String::new();
    key.push('/');
    key.append(store_path);
    proof {
        assert(key@ =~= seq!['/'] + store_path@);
    }
    let stored = PathTokenStored {
        token: token.clone(),
        created_at: now,
        valid_until: now + PATH_TOKENS_VALID_SECONDS,
    };
    path_tokens.put(key.as_str(), stored);
    proof {
        assert(path_tokens@.remove(key@) =~= old(path_tokens)@.remove(key@));
    }
    token
}

/// The key of one `key=value` query pair: everything before the first `=`,
/// or the whole pair when it has none.
pub open spec fn pair_key(p: Seq<char>) -> Seq<char>
    decreases p.len(),
{
    if p.len() == 0 {
        Seq::<char>::empty()
    } else if p[0] == '=' {
        Seq::<char>::empty()
    } else {
        seq![p[0]] + pair_key(p.drop_first())
    }
}

/// The value of one `key=value` query pair: everything after the first `=`,
/// or empty when it has none.
pub open spec fn pair_value(p: Seq<char>) -> Seq<char>
    decreases p.len(),
{
    if p.len() == 0 {
        Seq::<char>::empty()
    } else if p[0] == '=' {
        p.drop_first()
    } else {
        pair_value(p.drop_first())
    }
}

proof fn lemma_pair_split_at(p: Seq<char>, i: int)
    requires
        0 <= i <= p.len(),
        forall|j: int| 0 <= j < i ==> p[j] != '=',
        i < p.len() ==> p[i] == '=',
    ensures
        i < p.len() ==> pair_key(p) == p.subrange(0, i) && pair_value(p) == p.subrange(
            i + 1,
            p.len() as int,
        ),
        i == p.len() ==> pair_key(p) == p && pair_value(p) == Seq::<char>::empty(),
    decreases p.len(),
{
    if p.len() == 0 {
        assert(p.subrange(0, 0) =~= p);
    } else if i == 0 {
        if i < p.len() {
            assert(pair_key(p) =~= p.subrange(0, 0));
            assert(pair_value(p) =~= p.subrange(1, p.len() as int)) by {
                assert(p.drop_first() =~= p.subrange(1, p.len() as int));
            }
        }
    } else {
        let rest = p.drop_first();
        assert(forall|j: int| 0 <= j < i - 1 ==> rest[j] != '=');
        lemma_pair_split_at(rest, i - 1);
        if i < p.len() {
            assert(pair_key(p) =~= p.subrange(0, i)) by {
                assert(rest.subrange(0, i - 1) =~= p.subrange(1, i));
                assert(seq![p[0]] + p.subrange(1, i) =~= p.subrange(0, i));
            }
            assert(pair_value(p) =~= p.subrange(i + 1, p.len() as int)) by {
                assert(rest.subrange(i, rest.len() as int) =~= p.subrange(
                    i + 1,
                    p.len() as int,
                ));
            }
        } else {
            assert(pair_key(p) =~= p) by {
                assert(seq![p[0]] + p.drop_first() =~= p);
            }
        }
    }
}

/// Splits one query pair at its first `=`.
fn pair_split(p: &str) -> (r: (String, String))
    ensures
        r.0@ == pair_key(p@),
        r.1@ == pair_value(p@),
{
    let len = p.unicode_len();
    let mut i: usize = 0;
    while i < len
        invariant
            i <= len,
            len == p@.len(),
            forall|j: int| 0 <= j < i ==> p@[j] != '=',
        decreases len - i,
    {
        if p.get_char(i) == '=' {
            proof {
                lemma_pair_split_at(p@, i as int);
            }
            let key = p.substring_char(0, i).to_owned();
            let value = p.substring_char(i + 1, len).to_owned();
            return (key, value);
        }
        i += 1;
    }
    proof {
        lemma_pair_split_at(p@, len as int);
    }
    (p.to_owned(), String::new())
}

/// The value of the first `token` pair of a query string, if any.
pub open spec fn find_token(pairs: Seq<Seq<char>>) -> Option<Seq<char>>
    decreases pairs.len(),
{
    if pairs.len() == 0 {
        None
    } else if pair_key(pairs[0]) == "token"@ {
        Some(pair_value(pairs[0]))
    } else {
        find_token(pairs.drop_first())
    }
}

/// The token a query string carries, if any: the value of its first
/// `token=...` pair.
pub open spec fn query_token_spec(q: Seq<char>) -> Option<Seq<char>> {
    find_token(char_split(q, '&'))
}

/// Extracts a path token from a request's query string — but only for safe
/// methods, so a leaked or cached URL can never trigger a state-changing
/// operation.
pub fn token_from_query(query: &str, method_is_safe: bool) -> (r: Option<Token>)
    ensures
        match r {
            Some(t) => method_is_safe && query_token_spec(query@) == Some(t@),
            None => !method_is_safe || query_token_spec(query@) is None,
        },
{
    if !method_is_safe {
        return None;
    }
    let pairs = split_on(query, '&');
    let ghost all = pairs.deep_view();
    proof {
        assert(all.skip(0) =~= all);
    }
    let mut i: usize = 0;
    while i < pairs.len()
        invariant
            i <= all.len(),
            method_is_safe,
            all == pairs.deep_view(),
            all == char_split(query@, '&'),
            find_token(all) == find_token(all.skip(i as int)),
        decreases all.len() - i,
    {
        proof {
            assert(all.skip(i as int).drop_first() =~= all.skip(i + 1));
            assert(all.skip(i as int)[0] == all[i as int]);
        }
        let (key, value) = pair_split(pairs[i].as_str());
        if crate::strutil::str_equal(key.as_str(), "token") {
            proof {
                let s = all.skip(i as int);
                assert(all[i as int] == pairs@[i as int].deep_view());
                assert(s[0] == all[i as int]);
                assert(pair_key(s[0]) == key@);
                assert(find_token(s) == Some(pair_value(s[0])));
            }
            return Some(Token::read(value.as_str()));
        }
        i += 1;
    }
    proof {
        assert(all.skip(all.len() as int) =~= Seq::<Seq<char>>::empty());
    }
    None
}

/// Law: a path token authorizes only requests that decode and normalize to
/// exactly the path it was stored under. A request for any other path — a
/// sibling whose name merely extends the stored one, or a path that dodges
/// upward through `..` — is not granted.
pub proof fn lemma_path_token_exact_scope(
    path_tokens: Map<Seq<char>, PathTokenStored>,
    presented: Seq<char>,
    request_path: Seq<char>,
    now: i64,
    stored_path: Seq<char>,
)
    requires
        forall|p: Seq<char>|
            #[trigger] path_tokens.contains_key(p) && path_tokens[p].token@ == presented ==> p
                == stored_path,
        path_token_grants(path_tokens, presented, request_path, now),
    ensures
        path_token_key(request_path) == Some(stored_path),
{
}

} // verus!
