//! Adaptive salted password hashing, wrapped around the bcrypt crate.

use vstd::prelude::*;

use crate::errors::AuthError;

verus! {

/// What `bcrypt::verify` returns for a password and a stored hash: `None`
/// stands for its error case (a hash that is not a well-formed bcrypt hash),
/// `Some(b)` for a completed comparison. The outcome is a function of the two
/// strings alone.
pub uninterp spec fn bcrypt_check(password: Seq<char>, hash: Seq<char>) -> Option<bool>;

/// Whether the password verifies against the stored hash.
pub open spec fn password_verifies(password: Seq<char>, hash: Seq<char>) -> bool {
    bcrypt_check(password, hash) == Some(true)
}

/// Relies on `bcrypt::hash` with the crate's default cost: it draws a fresh
/// random salt, and the hash it returns verifies against the hashed password;
/// it fails only when the system randomness source fails.
#[verifier::external_body]
pub fn hash_password(password: &str) -> (r: Result<String, AuthError>)
    ensures
        r matches Ok(h) ==> password_verifies(password@, h@),
        r matches Err(e) ==> e == AuthError::BcryptError,
{
    match bcrypt::hash(password, bcrypt::DEFAULT_COST) {
        Ok(h) => Ok(h),
        Err(_) => Err(AuthError::BcryptError),
    }
}

/// Relies on `bcrypt::verify`: deterministic in the password and the hash,
/// and an error exactly when the hash is not a well-formed bcrypt hash.
#[verifier::external_body]
pub fn verify_password(password: &str, hash: &str) -> (r: Result<bool, AuthError>)
    ensures
        r matches Ok(b) ==> bcrypt_check(password@, hash@) == Some(b),
        r is Err ==> bcrypt_check(password@, hash@) is None,
        r matches Err(e) ==> e == AuthError::BcryptError,
{
    match bcrypt::verify(password, hash) {
        Ok(b) => Ok(b),
        Err(_) => Err(AuthError::BcryptError),
    }
}

} // verus!
