//! The session keyring: the one authority that issues, validates and revokes
//! session tokens, over any `KeyStorage`; and the request-boundary check that
//! turns an inbound token into an identity or a rejection.
use vstd::prelude::*;
use crate::codec::{all_hex_digits, is_hex_of, to_hex};
use crate::hasher::random_bytes;
use crate::store::{expiry_of, live_identity, KeyStorage, StoreError};

verus! {

/// Bytes of randomness behind each issued token.
pub const TOKEN_ENTROPY_LEN: usize = 32;

/// An opaque session token, as the client carries it (lowercase hex text for
/// tokens that this keyring issues).
pub struct SessionToken {
    text: Vec<u8>,
}

impl View for SessionToken {
    type V = Seq<u8>;

    closed spec fn view(&self) -> Seq<u8> {
        self.text@
    }
}

impl SessionToken {
    /// The token whose text is the hexadecimal form of `entropy`.
    pub fn from_entropy(entropy: &[u8]) -> (r: Self)
        requires
            entropy@.len() <= usize::MAX / 2,
        ensures
            is_hex_of(r@, entropy@),
            all_hex_digits(r@),
    {
        SessionToken { text: to_hex(entropy) }
    }

    /// A token as read back from the client.
    pub fn from_text(text: Vec<u8>) -> (r: Self)
        ensures
            r@ == text@,
    {
        SessionToken { text }
    }

    pub fn as_bytes(&self) -> (r: &[u8])
        ensures
            r@ == self@,
    {
        self.text.as_slice()
    }
}

/// Why a request is refused.
#[derive(Debug, Clone, Copy, PartialEq, Eq, Structural)]
pub enum AuthError {
    /// Missing, unknown, expired or revoked token, or a failed credential check.
    AuthenticationFailed,
    /// The session store could not be reached; access is denied.
    StoreUnavailable,
}

/// A store lookup as `validate` reports it: a store failure is a denial.
pub fn fail_closed(lookup: Result<Option<String>, StoreError>) -> (r: Option<String>)
    ensures
        r == match lookup {
            Ok(found) => found,
            Err(_) => None,
        },
{
    match lookup {
        Ok(found) => found,
        Err(_) => None,
    }
}

/// The request-boundary decision on a store lookup: a live record admits its
/// identity, absence is an authentication failure, a store failure denies.
pub fn access_decision(lookup: Result<Option<String>, StoreError>) -> (r: Result<String, AuthError>)
    ensures
        r == match lookup {
            Ok(Some(identity)) => Ok(identity),
            Ok(None) => Err(AuthError::AuthenticationFailed),
            Err(_) => Err(AuthError::StoreUnavailable),
        },
{
    match lookup {
        Ok(Some(identity)) => Ok(identity),
        Ok(None) => Err(AuthError::AuthenticationFailed),
        Err(_) => Err(AuthError::StoreUnavailable),
    }
}

/// Issues, validates and revokes sessions over a store, with a fixed
/// session lifetime in seconds. Validation never extends a session.
pub struct Keyring<S: KeyStorage> {
    store: S,
    ttl: u64,
}

impl<S: KeyStorage> Keyring<S> {
    /// Whether the store's contents are visible to the library.
    pub closed spec fn is_modeled(&self) -> bool {
        self.store.is_modeled()
    }

    /// The records of the store: token to identity and expiry instant.
    pub closed spec fn sessions(&self) -> Map<Seq<u8>, (Seq<char>, u64)> {
        self.store.sessions()
    }

    /// The lifetime given to each new session.
    pub closed spec fn ttl(&self) -> u64 {
        self.ttl
    }

    pub fn new(store: S, ttl: u64) -> (r: Self)
        ensures
            r.is_modeled() == store.is_modeled(),
            r.sessions() == store.sessions(),
            r.ttl() == ttl,
    {
        Keyring { store, ttl }
    }

    /// Binds `identity` to the token made from `entropy`, expiring the
    /// configured lifetime after `now`, and returns that token.
    pub fn login_with_entropy(&mut self, identity: &str, entropy: &[u8], now: u64) -> (r: Result<
        SessionToken,
        AuthError,
    >)
        requires
            entropy@.len() <= usize::MAX / 2,
        ensures
            final(self).ttl() == old(self).ttl(),
            r is Ok ==> is_hex_of(r->Ok_0@, entropy@) && all_hex_digits(r->Ok_0@),
            r is Err ==> r->Err_0 == AuthError::StoreUnavailable,
            old(self).is_modeled() ==> {
                &&& final(self).is_modeled()
                &&& r is Ok
                &&& final(self).sessions() == old(self).sessions().insert(
                    r->Ok_0@,
                    (identity@, expiry_of(now, old(self).ttl())),
                )
            },
    {
        let token = SessionToken::from_entropy(entropy);
        match self.store.put(token.as_bytes(), identity, self.ttl, now) {
            Ok(()) => Ok(token),
            Err(_) => Err(AuthError::StoreUnavailable),
        }
    }

    /// Issues a fresh token for `identity` from the system's secure random
    /// source, as `login_with_entropy` does.
    pub fn login(&mut self, identity: &str, now: u64) -> (r: Result<SessionToken, AuthError>)
        ensures
            final(self).ttl() == old(self).ttl(),
            r is Ok ==> r->Ok_0@.len() == 2 * TOKEN_ENTROPY_LEN && all_hex_digits(r->Ok_0@),
            r is Err ==> r->Err_0 == AuthError::StoreUnavailable,
            old(self).is_modeled() ==> {
                &&& final(self).is_modeled()
                &&& r is Ok
                &&& final(self).sessions() == old(self).sessions().insert(
                    r->Ok_0@,
                    (identity@, expiry_of(now, old(self).ttl())),
                )
            },
    {
        let entropy = random_bytes(TOKEN_ENTROPY_LEN);
        self.login_with_entropy(identity, entropy.as_slice(), now)
    }

    /// The store's answer for `token` at `now`, failures included.
    pub fn try_validate(&mut self, token: &SessionToken, now: u64) -> (r: Result<Option<String>, StoreError>)
        ensures
            final(self).ttl() == old(self).ttl(),
            old(self).is_modeled() ==> {
                &&& final(self).is_modeled()
                &&& final(self).sessions() == old(self).sessions()
                &&& r is Ok
                &&& (r->Ok_0 is Some) == (live_identity(old(self).sessions(), token@, now) is Some)
                &&& r->Ok_0 is Some ==> Some(r->Ok_0->Some_0@) == live_identity(
                    old(self).sessions(),
                    token@,
                    now,
                )
            },
    {
        self.store.get(token.as_bytes(), now)
    }

    /// The identity bound to `token` if its record is present and unexpired
    /// at `now`; `None` otherwise, and `None` when the store fails.
    pub fn validate(&mut self, token: &SessionToken, now: u64) -> (r: Option<String>)
        ensures
            final(self).ttl() == old(self).ttl(),
            old(self).is_modeled() ==> {
                &&& final(self).is_modeled()
                &&& final(self).sessions() == old(self).sessions()
                &&& (r is Some) == (live_identity(old(self).sessions(), token@, now) is Some)
                &&& r is Some ==> Some(r->Some_0@) == live_identity(old(self).sessions(), token@, now)
            },
    {
        fail_closed(self.try_validate(token, now))
    }

    /// Removes the record of `token`. An unknown or expired token is no error.
    pub fn logout(&mut self, token: &SessionToken) -> (r: Result<(), AuthError>)
        ensures
            final(self).ttl() == old(self).ttl(),
            r is Err ==> r->Err_0 == AuthError::StoreUnavailable,
            old(self).is_modeled() ==> {
                &&& final(self).is_modeled()
                &&& r is Ok
                &&& final(self).sessions() == old(self).sessions().remove(token@)
            },
    {
        match self.store.delete(token.as_bytes()) {
            Ok(()) => Ok(()),
            Err(_) => Err(AuthError::StoreUnavailable),
        }
    }

    /// The request-boundary check: the identity of the caller whose request
    /// carried `cookie`, or the reason to refuse it.
    pub fn authenticate(&mut self, cookie: Option<&SessionToken>, now: u64) -> (r: Result<String, AuthError>)
        ensures
            final(self).ttl() == old(self).ttl(),
            cookie is None ==> r == Err::<String, AuthError>(AuthError::AuthenticationFailed),
            r is Err && old(self).is_modeled() ==> r->Err_0 == AuthError::AuthenticationFailed,
            old(self).is_modeled() ==> {
                &&& final(self).is_modeled()
                &&& final(self).sessions() == old(self).sessions()
            },
            old(self).is_modeled() && cookie is Some ==> match live_identity(
                old(self).sessions(),
                cookie->Some_0@,
                now,
            ) {
                Some(identity) => r is Ok && r->Ok_0@ == identity,
                None => r is Err,
            },
    {
        match cookie {
            None => Err(AuthError::AuthenticationFailed),
            Some(token) => access_decision(self.try_validate(token, now)),
        }
    }
}

/// A session opened at `now` resolves to its identity at every instant
/// before it expires.
pub proof fn lemma_login_then_validate(
    sessions: Map<Seq<u8>, (Seq<char>, u64)>,
    token: Seq<u8>,
    identity: Seq<char>,
    now: u64,
    ttl: u64,
    later: u64,
)
    requires
        now <= later < expiry_of(now, ttl),
    ensures
        live_identity(sessions.insert(token, (identity, expiry_of(now, ttl))), token, later)
            == Some(identity),
{
}

/// Opening or closing a session under one token leaves what every other
/// token resolves to unchanged.
pub proof fn lemma_other_tokens_unaffected(
    sessions: Map<Seq<u8>, (Seq<char>, u64)>,
    token: Seq<u8>,
    other: Seq<u8>,
    record: (Seq<char>, u64),
    at: u64,
)
    requires
        token != other,
    ensures
        live_identity(sessions.insert(token, record), other, at) == live_identity(sessions, other, at),
        live_identity(sessions.remove(token), other, at) == live_identity(sessions, other, at),
{
}

/// After logout a token resolves to nothing at any instant, and a second
/// logout of it changes nothing.
pub proof fn lemma_logout_revokes(sessions: Map<Seq<u8>, (Seq<char>, u64)>, token: Seq<u8>, at: u64)
    ensures
        live_identity(sessions.remove(token), token, at) is None,
        sessions.remove(token).remove(token) == sessions.remove(token),
{
    assert(sessions.remove(token).remove(token) =~= sessions.remove(token));
}

/// Whatever a token resolves to, it resolves to the same identity at every
/// instant until it is revoked or expires: no lookup sees another binding.
pub proof fn lemma_validate_stable(
    sessions: Map<Seq<u8>, (Seq<char>, u64)>,
    token: Seq<u8>,
    first: u64,
    second: u64,
)
    requires
        first <= second,
        live_identity(sessions, token, second) is Some,
    ensures
        live_identity(sessions, token, first) == live_identity(sessions, token, second),
{
}

} // verus!
