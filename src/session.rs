use crate::errors::CustomAppError;
use crate::ids::new_uuid_v4;
use std::collections::HashMap;
use vstd::prelude::*;

verus! {

broadcast use vstd::std_specs::hash::group_hash_axioms;

/// The identity a session token stands for, and the second at which it
/// stops being honoured.
#[derive(Clone, Copy, Debug, PartialEq, Eq, Structural)]
pub struct Session {
    pub user_id: u128,
    pub expires_at: u64,
}

/// `now + ttl` seconds, held at the largest time when it would overflow.
pub open spec fn expiry(now: u64, ttl: u64) -> u64 {
    if ttl > u64::MAX - now {
        u64::MAX
    } else {
        (now + ttl) as u64
    }
}

pub fn compute_expiry(now: u64, ttl: u64) -> (r: u64)
    ensures
        r == expiry(now, ttl),
{
    if ttl > u64::MAX - now {
        u64::MAX
    } else {
        now + ttl
    }
}

/// The user a token resolves to at time `now`: absent and expired tokens are
/// refused alike.
pub open spec fn resolved(m: Map<u128, Session>, token: u128, now: u64) -> Result<
    u128,
    CustomAppError,
> {
    if m.contains_key(token) && now < m[token].expires_at {
        Ok(m[token].user_id)
    } else {
        Err(CustomAppError::Unauthenticated)
    }
}

/// Opaque session tokens mapped to user ids, each with a time to live.
pub struct SessionStore {
    entries: HashMap<u128, Session>,
}

impl View for SessionStore {
    type V = Map<u128, Session>;

    closed spec fn view(&self) -> Map<u128, Session> {
        self.entries@
    }
}

impl SessionStore {
    pub fn new() -> (r: SessionStore)
        ensures
            r@ == Map::<u128, Session>::empty(),
    {
        SessionStore { entries: HashMap::new() }
    }

    /// Stores `token → user_id` for `ttl` seconds from `now`. A token that is
    /// already stored is never handed out twice.
    pub fn create_session_with_token(
        &mut self,
        token: u128,
        user_id: u128,
        ttl: u64,
        now: u64,
    ) -> (r: Result<(), CustomAppError>)
        ensures
            old(self)@.contains_key(token) ==> r == Err::<(), CustomAppError>(
                CustomAppError::InternalError,
            ) && final(self)@ == old(self)@,
            !old(self)@.contains_key(token) ==> r is Ok && final(self)@ == old(self)@.insert(
                token,
                Session { user_id, expires_at: expiry(now, ttl) },
            ),
    {
        if self.entries.contains_key(&token) {
            return Err(CustomAppError::InternalError);
        }
        let expires_at = compute_expiry(now, ttl);
        self.entries.insert(token, Session { user_id, expires_at });
        Ok(())
    }

    /// Opens a session for `user_id` under a fresh random token, valid for
    /// `ttl` seconds from `now`.
    pub fn create_session(&mut self, user_id: u128, ttl: u64, now: u64) -> (r: Result<
        u128,
        CustomAppError,
    >)
        ensures
            exists|token: u128|
                {
                    &&& old(self)@.contains_key(token) ==> r == Err::<u128, CustomAppError>(
                        CustomAppError::InternalError,
                    ) && final(self)@ == old(self)@
                    &&& !old(self)@.contains_key(token) ==> r == Ok::<u128, CustomAppError>(token)
                        && final(self)@ == old(self)@.insert(
                        token,
                        Session { user_id, expires_at: expiry(now, ttl) },
                    )
                },
    {
        let token = new_uuid_v4();
        match self.create_session_with_token(token, user_id, ttl, now) {
            Ok(()) => Ok(token),
            Err(e) => Err(e),
        }
    }

    /// The user behind `token` at time `now`.
    pub fn resolve_session(&self, token: u128, now: u64) -> (r: Result<u128, CustomAppError>)
        ensures
            r == resolved(self@, token, now),
    {
        match self.entries.get(&token) {
            Some(s) => {
                if now < s.expires_at {
                    Ok(s.user_id)
                } else {
                    Err(CustomAppError::Unauthenticated)
                }
            },
            None => Err(CustomAppError::Unauthenticated),
        }
    }

    /// Forgets `token`; forgetting an unknown token is no error.
    pub fn revoke_session(&mut self, token: u128)
        ensures
            final(self)@ == old(self)@.remove(token),
    {
        self.entries.remove(&token);
    }
}

/// A session opened for a user resolves to that user until it expires, and
/// to nobody once it is revoked.
pub proof fn lemma_session_round_trip(
    m: Map<u128, Session>,
    token: u128,
    user_id: u128,
    ttl: u64,
    now: u64,
    later: u64,
)
    requires
        !m.contains_key(token),
    ensures
        later < expiry(now, ttl) ==> resolved(
            m.insert(token, Session { user_id, expires_at: expiry(now, ttl) }),
            token,
            later,
        ) == Ok::<u128, CustomAppError>(user_id),
        resolved(
            m.insert(token, Session { user_id, expires_at: expiry(now, ttl) }).remove(token),
            token,
            later,
        ) == Err::<u128, CustomAppError>(CustomAppError::Unauthenticated),
{
}

} // verus!
