use vstd::prelude::*;

use vstd::utf8::encode_utf8;

use crate::errors::AppError;
use crate::text::chars_of;

use argon2::password_hash::rand_core::OsRng;
use argon2::password_hash::{PasswordHash, PasswordHasher, PasswordVerifier, SaltString};
use argon2::Argon2;

verus! {

// ---------------------------------------------------------------------------
// Argon2 hashes
// ---------------------------------------------------------------------------

/// Whether a string is a well-formed PHC hash string.
pub uninterp spec fn phc_parses(phc: Seq<char>) -> bool;

/// Whether Argon2, run with the algorithm, parameters and salt that a PHC
/// string names, reproduces the output it holds for `password`.
pub uninterp spec fn argon2_accepts(password: Seq<char>, phc: Seq<char>) -> bool;

/// Relies on `SaltString::generate` (a fresh random salt from the OS) and
/// `Argon2::default().hash_password`, with the hash written out by its
/// `Display`: the PHC string it returns parses, and verifying the same
/// password against it recomputes the same output.
#[verifier::external_body]
fn argon2_hash(password: &str) -> (r: Result<String, String>)
    ensures
        r is Ok ==> phc_parses(r->Ok_0@) && argon2_accepts(password@, r->Ok_0@),
{
    let salt = SaltString::generate(&mut OsRng);
    match Argon2::default().hash_password(password.as_bytes(), &salt) {
        Ok(h) => Ok(h.to_string()),
        Err(e) => Err(e.to_string()),
    }
}

/// Relies on `PasswordHash::new` to parse the stored PHC string and on
/// `Argon2`'s `PasswordVerifier::verify_password`, which recomputes the hash
/// with the string's own parameters and salt and compares in constant time.
#[verifier::external_body]
fn argon2_check(password: &str, phc: &str) -> (r: Result<bool, String>)
    ensures
        r is Ok == phc_parses(phc@),
        r is Ok ==> r->Ok_0 == argon2_accepts(password@, phc@),
{
    match PasswordHash::new(phc) {
        Ok(h) => Ok(Argon2::default().verify_password(password.as_bytes(), &h).is_ok()),
        Err(e) => Err(e.to_string()),
    }
}

/// `phc` is a hash that `hash_password` may return for `password`.
pub open spec fn hash_of(password: Seq<char>, phc: Seq<char>) -> bool {
    phc_parses(phc) && argon2_accepts(password, phc)
}

/// What `verify_password` answers: `None` for a malformed stored hash.
pub open spec fn verify_outcome(password: Seq<char>, phc: Seq<char>) -> Option<bool> {
    if phc_parses(phc) { Some(argon2_accepts(password, phc)) } else { None }
}

/// Hashes a password with Argon2id and a fresh random salt, into a
/// self-describing PHC string.
pub fn hash_password(password: &str) -> (r: Result<String, AppError>)
    ensures
        r matches Ok(h) ==> hash_of(password@, h@),
        r matches Err(e) ==> e is Internal,
{
    match argon2_hash(password) {
        Ok(h) => Ok(h),
        Err(e) => {
            let mut m = "Password hashing failed: ".to_string();
            m.append(e.as_str());
            Err(AppError::Internal(m))
        },
    }
}

/// Checks a password against a stored PHC string. A malformed stored hash is
/// an integrity fault, not a mismatch.
pub fn verify_password(password: &str, hash: &str) -> (r: Result<bool, AppError>)
    ensures
        r is Ok == verify_outcome(password@, hash@) is Some,
        r matches Ok(b) ==> verify_outcome(password@, hash@) == Some(b),
        r matches Err(e) ==> e is Internal,
{
    match argon2_check(password, hash) {
        Ok(b) => Ok(b),
        Err(e) => {
            let mut m = "Invalid password hash format: ".to_string();
            m.append(e.as_str());
            Err(AppError::Internal(m))
        },
    }
}

/// A password hashed by `hash_password` verifies against its own hash.
pub proof fn lemma_hash_then_verify(password: Seq<char>, phc: Seq<char>)
    requires
        hash_of(password, phc),
    ensures
        verify_outcome(password, phc) == Some(true),
{
}

// ---------------------------------------------------------------------------
// Password policy
// ---------------------------------------------------------------------------

/// Unicode `Uppercase`, as `char::is_uppercase` reads it.
pub uninterp spec fn is_upper(c: char) -> bool;

/// Unicode `Lowercase`, as `char::is_lowercase` reads it.
pub uninterp spec fn is_lower(c: char) -> bool;

/// Unicode numeric (`Nd`, `Nl`, `No`), as `char::is_numeric` reads it.
pub uninterp spec fn is_numeric(c: char) -> bool;

/// Alphabetic or numeric, as `char::is_alphanumeric` reads it.
pub uninterp spec fn is_alnum(c: char) -> bool;

/// Relies on `char::is_uppercase`.
#[verifier::external_body]
fn char_is_upper(c: char) -> (r: bool)
    ensures
        r == is_upper(c),
{
    c.is_uppercase()
}

/// Relies on `char::is_lowercase`.
#[verifier::external_body]
fn char_is_lower(c: char) -> (r: bool)
    ensures
        r == is_lower(c),
{
    c.is_lowercase()
}

/// Relies on `char::is_numeric`.
#[verifier::external_body]
fn char_is_numeric(c: char) -> (r: bool)
    ensures
        r == is_numeric(c),
{
    c.is_numeric()
}

/// Relies on `char::is_alphanumeric`.
#[verifier::external_body]
fn char_is_alnum(c: char) -> (r: bool)
    ensures
        r == is_alnum(c),
{
    c.is_alphanumeric()
}

/// The character classes that the policy asks for.
pub enum CharClass {
    Upper,
    Lower,
    Digit,
    Special,
}

pub open spec fn in_class(k: CharClass, c: char) -> bool {
    match k {
        CharClass::Upper => is_upper(c),
        CharClass::Lower => is_lower(c),
        CharClass::Digit => is_numeric(c),
        CharClass::Special => !is_alnum(c),
    }
}

pub open spec fn has_class(k: CharClass, s: Seq<char>) -> bool {
    exists|i: int| 0 <= i < s.len() && in_class(k, #[trigger] s[i])
}

fn char_in_class(k: &CharClass, c: char) -> (r: bool)
    ensures
        r == in_class(*k, c),
{
    match k {
        CharClass::Upper => char_is_upper(c),
        CharClass::Lower => char_is_lower(c),
        CharClass::Digit => char_is_numeric(c),
        CharClass::Special => !char_is_alnum(c),
    }
}

fn contains_class(k: CharClass, s: &Vec<char>) -> (r: bool)
    ensures
        r == has_class(k, s@),
{
    let mut i: usize = 0;
    while i < s.len()
        invariant
            i <= s@.len(),
            forall|j: int| 0 <= j < i ==> !in_class(k, #[trigger] s@[j]),
        decreases s@.len() - i,
    {
        if char_in_class(&k, s[i]) {
            return true;
        }
        i = i + 1;
    }
    false
}

pub const MIN_PASSWORD_BYTES: usize = 8;
pub const MAX_PASSWORD_BYTES: usize = 128;

/// The message of the first rule a password breaks, in the fixed order:
/// minimum length, maximum length (both in UTF-8 bytes), an uppercase
/// letter, a lowercase letter, a digit, a special character.
pub open spec fn first_violation(p: Seq<char>, byte_len: nat) -> Option<Seq<char>> {
    if byte_len < MIN_PASSWORD_BYTES {
        Some("Password must be at least 8 characters long"@)
    } else if byte_len > MAX_PASSWORD_BYTES {
        Some("Password must not exceed 128 characters"@)
    } else if !has_class(CharClass::Upper, p) {
        Some("Password must contain at least one uppercase letter"@)
    } else if !has_class(CharClass::Lower, p) {
        Some("Password must contain at least one lowercase letter"@)
    } else if !has_class(CharClass::Digit, p) {
        Some("Password must contain at least one number"@)
    } else if !has_class(CharClass::Special, p) {
        Some("Password must contain at least one special character"@)
    } else {
        None
    }
}

/// Checks a password against the strength policy and reports the first
/// rule it breaks.
pub fn validate_password_strength(password: &str) -> (r: Result<(), AppError>)
    ensures
        r is Ok <==> first_violation(password@, encode_utf8(password@).len()) is None,
        r matches Err(e) ==> e is ValidationError
            && first_violation(password@, encode_utf8(password@).len()) == Some(e->ValidationError_0@),
{
    let n = password.as_bytes().len();
    if n < MIN_PASSWORD_BYTES {
        return Err(AppError::ValidationError("Password must be at least 8 characters long".to_string()));
    }
    if n > MAX_PASSWORD_BYTES {
        return Err(AppError::ValidationError("Password must not exceed 128 characters".to_string()));
    }
    let cs = chars_of(password);
    if !contains_class(CharClass::Upper, &cs) {
        return Err(AppError::ValidationError("Password must contain at least one uppercase letter".to_string()));
    }
    if !contains_class(CharClass::Lower, &cs) {
        return Err(AppError::ValidationError("Password must contain at least one lowercase letter".to_string()));
    }
    if !contains_class(CharClass::Digit, &cs) {
        return Err(AppError::ValidationError("Password must contain at least one number".to_string()));
    }
    if !contains_class(CharClass::Special, &cs) {
        return Err(AppError::ValidationError("Password must contain at least one special character".to_string()));
    }
    Ok(())
}

} // verus!
