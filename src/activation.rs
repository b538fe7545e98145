use crate::errors::CustomAppError;
use crate::ids::random_u32;
use crate::session::{compute_expiry, expiry};
use crate::text::{constant_time_eq, decimal, hex_lower, to_decimal, to_hex_lower};
use sha2::Digest;
use std::collections::HashMap;
use vstd::prelude::*;

verus! {

broadcast use vstd::std_specs::hash::group_hash_axioms;

/// What SHA-256 computes over the UTF-8 encoding of a text.
pub uninterp spec fn sha256_of(s: Seq<char>) -> Seq<u8>;

/// Relies on `sha2::Sha256::digest`: the 32-byte SHA-256 digest of the
/// text's UTF-8 bytes.
#[verifier::external_body]
fn sha256_digest(s: &str) -> (r: Vec<u8>)
    ensures
        r@ == sha256_of(s@),
        r@.len() == 32,
{
    sha2::Sha256::digest(s.as_bytes()).to_vec()
}

/// How a code is kept: the lowercase hex of its SHA-256 digest.
pub open spec fn code_hash(code: Seq<char>) -> Seq<char> {
    hex_lower(sha256_of(code))
}

/// The six-digit number that a random draw `r` gives.
pub open spec fn activation_number(r: u32) -> nat {
    (r % 900000) as nat + 100000
}

/// Every activation code has six digits.
pub proof fn lemma_activation_code_six_digits(random: u32)
    ensures
        decimal(activation_number(random)).len() == 6,
{
    let n = activation_number(random);
    let n1 = n / 10;
    let n2 = n1 / 10;
    let n3 = n2 / 10;
    let n4 = n3 / 10;
    let n5 = n4 / 10;
    assert(1 <= n5 < 10);
    assert(decimal(n5).len() == 1);
    assert(decimal(n4).len() == 2);
    assert(decimal(n3).len() == 3);
    assert(decimal(n2).len() == 4);
    assert(decimal(n1).len() == 5);
}

/// Hashes a code the way it is stored.
pub fn hash_code(code: &str) -> (r: String)
    ensures
        r@ == code_hash(code@),
{
    let digest = sha256_digest(code);
    to_hex_lower(digest.as_slice())
}

/// A code waiting to be used: its hash and the second at which it lapses.
#[derive(Debug)]
pub struct PendingCode {
    pub code_hash: String,
    pub expires_at: u64,
}

/// One pending activation code per user, kept hashed, each with a time to
/// live.
pub struct ActivationStore {
    entries: HashMap<u128, PendingCode>,
}

impl View for ActivationStore {
    type V = Map<u128, (Seq<char>, u64)>;

    closed spec fn view(&self) -> Map<u128, (Seq<char>, u64)> {
        self.entries@.map_values(|p: PendingCode| (p.code_hash@, p.expires_at))
    }
}

/// Whether `candidate` is the live code of `user_id` at time `now`.
pub open spec fn accepts(
    m: Map<u128, (Seq<char>, u64)>,
    user_id: u128,
    candidate: Seq<char>,
    now: u64,
) -> bool {
    m.contains_key(user_id) && now < m[user_id].1 && m[user_id].0 == code_hash(candidate)
}

impl ActivationStore {
    pub fn new() -> (r: ActivationStore)
        ensures
            r@ == Map::<u128, (Seq<char>, u64)>::empty(),
    {
        let r = ActivationStore { entries: HashMap::new() };
        assert(r@ =~= Map::<u128, (Seq<char>, u64)>::empty());
        r
    }

    /// Makes the code that the random draw `random` gives the only pending
    /// code of `user_id`, for `ttl` seconds from `now`, and returns it.
    pub fn issue_code(&mut self, user_id: u128, random: u32, ttl: u64, now: u64) -> (code: String)
        ensures
            code@ == decimal(activation_number(random)),
            code@.len() == 6,
            final(self)@ == old(self)@.insert(user_id, (code_hash(code@), expiry(now, ttl))),
    {
        proof {
            lemma_activation_code_six_digits(random);
        }
        let number = random % 900000 + 100000;
        let code = to_decimal(number);
        let hashed = hash_code(code.as_str());
        let expires_at = compute_expiry(now, ttl);
        self.entries.insert(user_id, PendingCode { code_hash: hashed, expires_at });
        assert(self@ =~= old(self)@.insert(user_id, (code_hash(code@), expiry(now, ttl))));
        code
    }

    /// Issues a fresh random six-digit code for `user_id`; any earlier code
    /// of the user stops working.
    pub fn issue(&mut self, user_id: u128, ttl: u64, now: u64) -> (code: String)
        ensures
            exists|random: u32| code@ == decimal(activation_number(random)),
            final(self)@ == old(self)@.insert(user_id, (code_hash(code@), expiry(now, ttl))),
    {
        let random = random_u32();
        self.issue_code(user_id, random, ttl, now)
    }

    /// Uses up the code of `user_id` if `candidate` is it and it is still
    /// live; a wrong code leaves the pending one in place.
    pub fn consume(&mut self, user_id: u128, candidate: &str, now: u64) -> (r: Result<
        (),
        CustomAppError,
    >)
        ensures
            accepts(old(self)@, user_id, candidate@, now) ==> r is Ok && final(self)@ == old(
                self,
            )@.remove(user_id),
            !accepts(old(self)@, user_id, candidate@, now) ==> r == Err::<(), CustomAppError>(
                CustomAppError::InvalidOrExpired,
            ) && final(self)@ == old(self)@,
    {
        let hashed = hash_code(candidate);
        let ok = match self.entries.get(&user_id) {
            Some(p) => now < p.expires_at
                && constant_time_eq(p.code_hash.as_str(), hashed.as_str()),
            None => false,
        };
        if ok {
            self.entries.remove(&user_id);
            assert(self@ =~= old(self)@.remove(user_id));
            Ok(())
        } else {
            Err(CustomAppError::InvalidOrExpired)
        }
    }
}

/// A code that was issued is accepted once before it lapses, and a second
/// use of it is refused.
pub proof fn lemma_activation_single_use(
    m: Map<u128, (Seq<char>, u64)>,
    user_id: u128,
    code: Seq<char>,
    ttl: u64,
    now: u64,
    later: u64,
)
    requires
        later < expiry(now, ttl),
    ensures
        accepts(m.insert(user_id, (code_hash(code), expiry(now, ttl))), user_id, code, later),
        !accepts(
            m.insert(user_id, (code_hash(code), expiry(now, ttl))).remove(user_id),
            user_id,
            code,
            later,
        ),
{
}

} // verus!
