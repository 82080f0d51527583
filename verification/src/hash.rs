//! Password hashing.

use crate::text::text_of;
use vstd::prelude::*;

verus! {

/// What `argon2::PasswordHasher::hash_password` of `argon2::Argon2::default()`
/// makes of a password and a salt: the hash in its text form, or nothing
/// where the salt is no salt or the hash cannot be computed.
pub uninterp spec fn hashed_with(password: Seq<char>, salt: Seq<char>) -> Option<Seq<char>>;

/// Whether `argon2::PasswordHash::new` accepts a text as a password hash.
pub uninterp spec fn hash_parses(hashed: Seq<char>) -> bool;

/// Whether `argon2::PasswordVerifier::verify_password` of
/// `argon2::Argon2::default()` accepts a password for a password hash.
pub uninterp spec fn password_matches(password: Seq<char>, hashed: Seq<char>) -> bool;

/// The text of a result, where it is one.
pub open spec fn hashed_text(made: Result<String, ()>) -> Option<Seq<char>> {
    match made {
        Ok(s) => Some(s@),
        Err(_) => None,
    }
}

/// Calls `argon2::password_hash::SaltString::generate` on the random source
/// of the operating system: a new salt in its text form. It is drawn at
/// random, so nothing is stated of it.
#[verifier::external_body]
fn new_salt() -> String {
    let salt = argon2::password_hash::SaltString::generate(
        &mut argon2::password_hash::rand_core::OsRng,
    );
    salt.as_str().to_string()
}

/// Calls `argon2::PasswordHasher::hash_password` of
/// `argon2::Argon2::default()` with the salt read by
/// `argon2::password_hash::SaltString::from_b64`. The hash is a function of
/// the password and the salt alone, and the contract names it.
#[verifier::external_body]
fn hash_with(password: &str, salt: &str) -> (made: Option<String>)
    ensures
        text_of(made) == hashed_with(password@, salt@),
{
    let salt = match argon2::password_hash::SaltString::from_b64(salt) {
        Ok(salt) => salt,
        Err(_) => return None,
    };
    match argon2::PasswordHasher::hash_password(&argon2::Argon2::default(), password.as_bytes(), &salt) {
        Ok(hashed) => Some(hashed.to_string()),
        Err(_) => None,
    }
}

/// Calls `argon2::PasswordHash::new` and says whether it accepted the text.
#[verifier::external_body]
fn parses(hashed: &str) -> (accepted: bool)
    ensures
        accepted == hash_parses(hashed@),
{
    argon2::PasswordHash::new(hashed).is_ok()
}

/// Calls `argon2::PasswordVerifier::verify_password` of
/// `argon2::Argon2::default()` on the hash read by
/// `argon2::PasswordHash::new`, which must accept it, and says whether the
/// password was accepted.
#[verifier::external_body]
fn matches(password: &str, hashed: &str) -> (accepted: bool)
    requires
        hash_parses(hashed@),
    ensures
        accepted == password_matches(password@, hashed@),
{
    let parsed = argon2::PasswordHash::new(hashed).unwrap();
    argon2::PasswordVerifier::verify_password(
        &argon2::Argon2::default(),
        password.as_bytes(),
        &parsed,
    ).is_ok()
}

/// The hash of `password` under `salt`. Fails exactly where the salt is no
/// salt or the hash cannot be computed.
pub fn hash_password_with(password: &str, salt: &str) -> (made: Result<String, ()>)
    ensures
        hashed_text(made) == hashed_with(password@, salt@),
{
    match hash_with(password, salt) {
        Some(hashed) => Ok(hashed),
        None => Err(()),
    }
}

/// The hash of `password` under a new random salt.
pub fn hash_password(password: String) -> (made: Result<String, ()>)
    ensures
        exists|salt: Seq<char>| hashed_text(made) == #[trigger] hashed_with(password@, salt),
{
    let salt = new_salt();
    hash_password_with(password.as_str(), salt.as_str())
}

/// Whether `password` is the password of the hash `hashed_password`, which
/// must be a password hash.
pub fn verify_password(password: String, hashed_password: String) -> (verified: Result<(), ()>)
    requires
        hash_parses(hashed_password@),
    ensures
        verified is Ok <==> password_matches(password@, hashed_password@),
{
    if matches(password.as_str(), hashed_password.as_str()) {
        Ok(())
    } else {
        Err(())
    }
}

/// Whether `password` is the password of the hash `hashed_password`. `None`
/// exactly where `hashed_password` is no password hash.
pub fn try_verify_password(password: String, hashed_password: String) -> (verified: Option<
    Result<(), ()>,
>)
    ensures
        verified is Some <==> hash_parses(hashed_password@),
        verified is Some ==> (verified->0 is Ok <==> password_matches(
            password@,
            hashed_password@,
        )),
{
    if parses(hashed_password.as_str()) {
        Some(verify_password(password, hashed_password))
    } else {
        None
    }
}

} // verus!
