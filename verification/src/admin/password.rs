//! Passwords of the admin interface, kept as Argon2 hashes.
use vstd::prelude::*;

verus! {

/// Whether Argon2 accepts a password for a stored hash.
pub uninterp spec fn accepts(hash: Seq<char>, plain: Seq<char>) -> bool;

/// The most bytes that a password may have.
pub const MAX_PASSWORD_BYTES: u64 = 0xffff_ffff;

/// A password that can be hashed, by the bytes of its UTF-8 text.
pub open spec fn hashable(plain: Seq<char>) -> bool {
    vstd::utf8::encode_utf8(plain).len() <= MAX_PASSWORD_BYTES
}

/// `argon2::Argon2::hash_password` with the default parameters and a fresh salt
/// of 16 bytes: it reports an error exactly for a password that is longer than
/// Argon2 takes, and a hash that it returns accepts the password it was made
/// of. Which hash it is depends on the salt.
#[verifier::external_body]
fn argon2_hash(plain: &str) -> (r: Result<String, String>)
    ensures
        match r {
            Ok(h) => hashable(plain@) && accepts(h@, plain@),
            Err(e) => !hashable(plain@) && e@ == "invalid password"@,
        },
{
    let salt = argon2::password_hash::SaltString::generate(&mut rand::rngs::OsRng);
    let hasher = argon2::Argon2::default();
    argon2::password_hash::PasswordHasher::hash_password(&hasher, plain.as_bytes(), &salt)
        .map(|h| h.to_string())
        .map_err(|e| e.to_string())
}

/// `argon2::Argon2::verify_password`: whether it accepts is a function of hash
/// and password, and it accepts nothing for a hash that it cannot read.
#[verifier::external_body]
fn argon2_verify(hash: &str, plain: &str) -> (r: bool)
    ensures
        r == accepts(hash@, plain@),
{
    match argon2::password_hash::PasswordHash::new(hash) {
        Ok(parsed) => argon2::password_hash::PasswordVerifier::verify_password(
            &argon2::Argon2::default(),
            plain.as_bytes(),
            &parsed,
        ).is_ok(),
        Err(_) => false,
    }
}

/// What is said of a password that cannot be hashed.
pub open spec fn hash_failure() -> Seq<char> {
    "argon2 hash failed: "@ + "invalid password"@
}

/// A hash that accepts the password. Only a password that is too long has none.
pub fn hash_password(plain: &str) -> (r: Result<String, String>)
    ensures
        match r {
            Ok(h) => hashable(plain@) && accepts(h@, plain@),
            Err(e) => !hashable(plain@) && e@ == hash_failure(),
        },
{
    match argon2_hash(plain) {
        Ok(h) => Ok(h),
        Err(e) => Err(crate::text::concat2("argon2 hash failed: ", e.as_str())),
    }
}

/// Whether the hash accepts the password.
pub fn verify_password(hash: &str, plain: &str) -> (r: bool)
    ensures
        r == accepts(hash@, plain@),
{
    argon2_verify(hash, plain)
}

} // verus!
