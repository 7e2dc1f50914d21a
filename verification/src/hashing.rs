//! Password hashing, done by the `bcrypt` crate.

use vstd::prelude::*;

verus! {

/// Declares `bcrypt::BcryptError`, the error of `bcrypt::hash` and
/// `bcrypt::verify`, as a type that is carried through and never looked into.
#[verifier::external_type_specification]
#[verifier::external_body]
pub struct ExBcryptError(bcrypt::BcryptError);

/// What `bcrypt::verify` makes of a password and a stored hash: `Some(true)`
/// where the hash is one of that password, `Some(false)` where it is a hash
/// of something else, `None` where it cannot be read as a bcrypt hash.
pub uninterp spec fn bcrypt_verdict(password: Seq<char>, hash: Seq<char>) -> Option<bool>;

/// Calls `bcrypt::verify`. Trusted: the call computes from its two arguments
/// alone, so its outcome is the value that [`bcrypt_verdict`] names for them.
#[verifier::external_body]
pub(crate) fn bcrypt_verify(password: &String, hash: &String) -> (r: Result<
    bool,
    bcrypt::BcryptError,
>)
    ensures
        match r {
            Ok(b) => bcrypt_verdict(password@, hash@) == Some(b),
            Err(_) => bcrypt_verdict(password@, hash@) is None,
        },
{
    bcrypt::verify(password.as_str(), hash.as_str())
}

/// Whether a text begins as `bcrypt::hash` begins every hash that it makes
/// at the default cost: with the version `2b` and the cost `12`, each behind
/// a dollar sign.
pub open spec fn is_hash_text(t: Seq<char>) -> bool {
    t.len() >= 7 && t.subrange(0, 7) == "$2b$12$"@
}

/// Calls `bcrypt::hash` at the crate's default cost. Trusted: the salt is
/// drawn at random, so nothing is said of which hash comes back but that
/// `bcrypt::verify` accepts the same password against it, and that it begins
/// as the crate formats every hash of version `2b` and cost 12.
#[verifier::external_body]
pub(crate) fn bcrypt_hash(password: &String) -> (r: Result<String, bcrypt::BcryptError>)
    ensures
        r matches Ok(h) ==> bcrypt_verdict(password@, h@) == Some(true) && is_hash_text(h@),
{
    bcrypt::hash(password.as_str(), bcrypt::DEFAULT_COST)
}

/// The text that `bcrypt` gives for one of its errors. Trusted, with nothing
/// claimed of the text.
#[verifier::external_body]
pub(crate) fn bcrypt_error_text(e: &bcrypt::BcryptError) -> String {
    e.to_string()
}

} // verus!
