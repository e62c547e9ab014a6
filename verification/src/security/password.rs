//! Password hashing with Argon2id (PHC string output).

use vstd::prelude::*;

use argon2::password_hash::{PasswordHash, Salt, SaltString};
use argon2::Argon2;

use crate::security::error::SecurityError;
use crate::session::cookie::fill_random;

verus! {

#[verifier::external_type_specification]
#[verifier::external_body]
pub struct ExPasswordHash<'a>(PasswordHash<'a>);

/// Whether `s` parses as a PHC password-hash string (`PasswordHash::new`).
pub uninterp spec fn phc_valid(s: Seq<char>) -> bool;

/// What Argon2id with the default parameters gives for `plain` and the B64
/// salt text `salt`: the PHC string of the hash, or the error text when the
/// salt text or the hashing is refused.  A function of its arguments alone.
pub uninterp spec fn argon2_phc(plain: Seq<char>, salt: Seq<char>) -> Result<Seq<char>, Seq<char>>;

/// Whether the PHC string `hashed` parses and Argon2 finds `plain` matches it
/// (`verify_password` recomputes the hash from the parameters and salt in
/// `hashed` and compares).  A function of its arguments alone.
pub uninterp spec fn argon2_verifies(hashed: Seq<char>, plain: Seq<char>) -> bool;

/// Whether `s` begins with the Argon2id PHC prefix `$argon2id$`.
pub open spec fn has_argon2id_prefix(s: Seq<char>) -> bool {
    s.len() >= 10 && s.take(10) == "$argon2id$"@
}

/// B64 salt text for 16 bytes (`SaltString::encode_b64`, which succeeds for
/// any input of up to 48 bytes).
#[verifier::external_body]
fn encode_salt(bytes: &[u8]) -> (salt: String)
    requires
        bytes@.len() == 16,
{
    SaltString::encode_b64(bytes).expect("16 bytes always encode as a salt").as_str().to_owned()
}

/// Argon2id hash of `plain` with the B64 salt text `salt` and the default
/// parameters, as a PHC string (`Salt::from_b64`, then
/// `Argon2::default().hash_password(..).to_string()`); the error text when
/// the salt text or the hashing is refused.  The result is [`argon2_phc`] of
/// the arguments; a hash starts with `$argon2id$`, parses as a PHC string,
/// and `verify_password` accepts `plain` against it (it recomputes the same
/// hash).
#[verifier::external_body]
fn argon2_hash(plain: &str, salt: &str) -> (r: Result<String, String>)
    ensures
        match r {
            Ok(h) => argon2_phc(plain@, salt@) == Ok::<Seq<char>, Seq<char>>(h@)
                && has_argon2id_prefix(h@) && phc_valid(h@) && argon2_verifies(h@, plain@),
            Err(why) => argon2_phc(plain@, salt@) == Err::<Seq<char>, Seq<char>>(why@),
        },
{
    match Salt::from_b64(salt) {
        Err(error) => Err(error.to_string()),
        Ok(salt) => match argon2::password_hash::PasswordHasher::hash_password(
            &Argon2::default(),
            plain.as_bytes(),
            salt,
        ) {
            Ok(hash) => Ok(hash.to_string()),
            Err(error) => Err(error.to_string()),
        },
    }
}

/// Parsed PHC string (`PasswordHash::new`), or the parser's error text.
#[verifier::external_body]
fn parse_phc(hashed: &str) -> (r: Result<PasswordHash<'_>, String>)
    ensures
        r.is_ok() == phc_valid(hashed@),
{
    PasswordHash::new(hashed).map_err(|error| error.to_string())
}

/// Whether `plain` matches the PHC string `hashed` (`PasswordHash::new`,
/// then `Argon2::default().verify_password`; an unparsable string matches
/// nothing): [`argon2_verifies`] of the arguments.
#[verifier::external_body]
fn argon2_accepts(hashed: &str, plain: &str) -> (r: bool)
    ensures
        r == argon2_verifies(hashed@, plain@),
{
    match PasswordHash::new(hashed) {
        Err(_) => false,
        Ok(hash) => argon2::password_hash::PasswordVerifier::verify_password(
            &Argon2::default(),
            plain.as_bytes(),
            &hash,
        ).is_ok(),
    }
}

/// What [`PasswordHasher::verify`] of [`Argon2idPasswordHasher`] answers for
/// `hashed` and `plain`: `None` for a string that is not PHC, else whether
/// `plain` matches.
pub open spec fn verify_outcome(hashed: Seq<char>, plain: Seq<char>) -> Option<bool> {
    if phc_valid(hashed) {
        Some(argon2_verifies(hashed, plain))
    } else {
        None
    }
}

/// Round trip: a hash that hashing gives for `plain` (a PHC string that
/// Argon2 accepts `plain` against, as [`hash_password_with_salt`] and
/// [`Argon2idPasswordHasher::hash`] state) verifies as `true` against
/// `plain`.
pub proof fn lemma_hash_then_verify(hashed: Seq<char>, plain: Seq<char>)
    requires
        phc_valid(hashed),
        argon2_verifies(hashed, plain),
    ensures
        verify_outcome(hashed, plain) == Some(true),
{
}

/// Hashes and verifies password strings.
pub trait PasswordHasher {
    /// PHC-formatted hash of `plain`.
    fn hash(&self, plain: &str) -> Result<String, SecurityError>;

    /// Whether `plain` matches `hashed`.
    fn verify(&self, hashed: &str, plain: &str) -> Result<bool, SecurityError>;
}

/// Argon2id hasher with the crate's default parameters.
#[derive(Clone, Copy, Debug, Default)]
pub struct Argon2idPasswordHasher;

impl Argon2idPasswordHasher {
    pub fn new() -> (h: Argon2idPasswordHasher) {
        Argon2idPasswordHasher
    }
}

/// 16 random bytes from the OS as B64 salt text; `None` when the generator
/// fails.
fn random_salt() -> (r: Option<String>) {
    let mut bytes: Vec<u8> = vec![0u8; 16];
    if !fill_random(bytes.as_mut_slice()) {
        return None;
    }
    Some(encode_salt(bytes.as_slice()))
}

/// Argon2id hash of `plain` with the B64 salt text `salt`: exactly
/// [`argon2_phc`], its refusal as [`SecurityError::Password`] with the
/// hasher's message.
pub fn hash_password_with_salt(plain: &str, salt: &str) -> (r: Result<String, SecurityError>)
    ensures
        match argon2_phc(plain@, salt@) {
            Ok(h) => r matches Ok(s) && s@ == h,
            Err(why) => r matches Err(SecurityError::Password { message }) && message@ == why,
        },
        r matches Ok(s) ==> has_argon2id_prefix(s@) && phc_valid(s@) && argon2_verifies(s@, plain@),
{
    match argon2_hash(plain, salt) {
        Ok(s) => Ok(s),
        Err(message) => Err(SecurityError::Password { message }),
    }
}

impl PasswordHasher for Argon2idPasswordHasher {
    /// Fails with "password must not be empty" for an empty password; any
    /// other failure comes from the generator or the hasher.  A hash is a
    /// PHC string against which `plain` verifies.
    fn hash(&self, plain: &str) -> (r: Result<String, SecurityError>)
        ensures
            plain@.len() == 0 ==> (r matches Err(SecurityError::Password { message }) && message@
                == "password must not be empty"@),
            match r {
                Ok(s) => plain@.len() > 0 && has_argon2id_prefix(s@) && phc_valid(s@)
                    && argon2_verifies(s@, plain@),
                Err(e) => e is Password,
            },
    {
        if plain.len() == 0 {
            return Err(SecurityError::Password { message: "password must not be empty".to_owned() });
        }
        match random_salt() {
            None => Err(SecurityError::Password { message: "random salt generation failed".to_owned() }),
            Some(salt) => hash_password_with_salt(plain, salt.as_str()),
        }
    }

    /// Fails exactly when `hashed` is not a PHC string; otherwise whether
    /// Argon2 accepts `plain` against it.
    fn verify(&self, hashed: &str, plain: &str) -> (r: Result<bool, SecurityError>)
        ensures
            r.is_ok() == phc_valid(hashed@),
            r matches Err(e) ==> e is Password,
            r matches Ok(b) ==> b == argon2_verifies(hashed@, plain@),
    {
        match parse_phc(hashed) {
            Err(message) => Err(SecurityError::Password { message }),
            Ok(_) => Ok(argon2_accepts(hashed, plain)),
        }
    }
}

} // verus!
