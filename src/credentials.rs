use argon2::password_hash::rand_core::OsRng;
use argon2::password_hash::{PasswordHash, PasswordHasher, PasswordVerifier, SaltString};
use vstd::prelude::*;

verus! {

/// What Argon2 verification says of a candidate password against a stored
/// hash string: `None` where the string cannot be used as a hash, otherwise
/// whether the candidate matches.
pub uninterp spec fn argon2_verdict(stored: Seq<char>, candidate: Seq<u8>) -> Option<bool>;

/// Why a password was not accepted.
#[derive(Clone, Copy, Debug, PartialEq, Eq, Structural)]
pub enum PasswordError {
    /// The stored hash is well formed and the candidate does not match it.
    Mismatch,
    /// The stored hash cannot be read or used.
    Malformed,
}

/// Relies on `argon2::Argon2::hash_password` (Argon2id, version 19, default
/// parameters) with a salt drawn from `OsRng`: the PHC string that it
/// returns starts `$argon2id$` and records version, parameters and salt;
/// verifying the same password against it recomputes the same output. Its
/// only refusal of an input is a password longer than `0xFFFF_FFFF` bytes.
#[verifier::external_body]
fn argon2_hash(password: &[u8]) -> (r: Option<String>)
    ensures
        r is Some <==> password@.len() <= 0xFFFF_FFFF,
        r matches Some(h) ==> argon2_verdict(h@, password@) == Some(true),
        r matches Some(h) ==> "$argon2id$"@.is_prefix_of(h@),
{
    let salt = SaltString::generate(&mut OsRng);
    argon2::Argon2::default().hash_password(password, &salt).ok().map(|h| h.to_string())
}

/// Relies on `argon2::password_hash::PasswordHash::new` to read the stored
/// string and on `argon2::Argon2::verify_password` to compare the candidate.
#[verifier::external_body]
fn argon2_verify(stored: &str, candidate: &[u8]) -> (r: Option<bool>)
    ensures
        r == argon2_verdict(stored@, candidate@),
{
    let parsed = PasswordHash::new(stored).ok()?;
    match argon2::Argon2::default().verify_password(candidate, &parsed) {
        Ok(()) => Some(true),
        Err(argon2::password_hash::Error::Password) => Some(false),
        Err(_) => None,
    }
}

/// Hashes a password with a fresh random salt into a self-describing
/// Argon2id string; `None` exactly for a password over `0xFFFF_FFFF` bytes.
pub fn hash_password(password: &[u8]) -> (r: Option<String>)
    ensures
        r is Some <==> password@.len() <= 0xFFFF_FFFF,
        r matches Some(h) ==> argon2_verdict(h@, password@) == Some(true),
        r matches Some(h) ==> "$argon2id$"@.is_prefix_of(h@),
{
    argon2_hash(password)
}

/// The outcome of verification, from the verdict on a stored hash.
pub open spec fn verification(verdict: Option<bool>) -> Result<(), PasswordError> {
    match verdict {
        Some(true) => Ok(()),
        Some(false) => Err(PasswordError::Mismatch),
        None => Err(PasswordError::Malformed),
    }
}

/// Checks a candidate password against a stored hash. A mismatch is told
/// apart from a hash that cannot be used.
pub fn verify_password(stored: &str, candidate: &[u8]) -> (r: Result<(), PasswordError>)
    ensures
        r == verification(argon2_verdict(stored@, candidate@)),
{
    match argon2_verify(stored, candidate) {
        Some(true) => Ok(()),
        Some(false) => Err(PasswordError::Mismatch),
        None => Err(PasswordError::Malformed),
    }
}

/// A password is accepted against any hash made of it.
pub proof fn lemma_password_round_trip(stored: Seq<char>, password: Seq<u8>)
    requires
        argon2_verdict(stored, password) == Some(true),
    ensures
        verification(argon2_verdict(stored, password)) == Ok::<(), PasswordError>(()),
{
}

} // verus!
