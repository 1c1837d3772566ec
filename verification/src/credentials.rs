//! Password credential derivation and verification.
//!
//! Hashes are self-describing PHC strings: the salt and the cost parameters
//! travel inside the stored hash, so verification needs nothing but the hash
//! and the attempt. Derivation and verification are done by the argon2
//! crate; what they compute is named by `password_verifies` and trusted,
//! everything built on top of it is proved.

use vstd::prelude::*;

verus! {

/// What verifying a stored hash string against a password attempt returns.
/// The computation re-derives the hash from the attempt with the salt and
/// parameters embedded in the stored string and compares the outputs, so it
/// is a function of the two strings alone.
pub uninterp spec fn password_verifies(hash: Seq<char>, password: Seq<char>) -> bool;

/// Relies on argon2's `PasswordHasher::hash_password` (through
/// `PasswordHash::generate`) with a freshly generated random salt: the
/// serialized hash embeds its salt and parameters, and re-derivation
/// succeeds for the password the hash was made from and, Argon2 outputs
/// being collision-free in practice, for no other. `None` when the
/// derivation itself fails.
#[verifier::external_body]
pub(crate) fn hash_password(password: &str) -> (r: Option<String>)
    ensures
        r matches Some(h) ==> forall|p: Seq<char>|
            #[trigger] password_verifies(h@, p) <==> p == password@,
{
    let argon2 = argon2::Argon2::default();
    let salt_s = argon2::password_hash::SaltString::generate(&mut rand::thread_rng());
    match argon2::password_hash::PasswordHash::generate(argon2, password, salt_s.as_salt()) {
        Ok(hash) => Some(hash.serialize().as_str().to_owned()),
        Err(_) => None,
    }
}

/// Relies on `PasswordHash::new` and `PasswordHash::verify_password` of the
/// password-hash crate with the argon2 verifier: parsing the stored string
/// and re-deriving with its embedded salt and parameters. The outcome is a
/// function of the two arguments, named by `password_verifies`; a stored
/// string that does not parse, or any internal error, verifies nothing and
/// never panics.
#[verifier::external_body]
pub fn check_password_hash(password_hash: &str, password: &str) -> (r: bool)
    ensures
        r == password_verifies(password_hash@, password@),
{
    let argon2 = argon2::Argon2::default();
    match argon2::password_hash::PasswordHash::new(password_hash) {
        Ok(hash) => hash.verify_password(&[&argon2], password).is_ok(),
        Err(_) => false,
    }
}

} // verus!
