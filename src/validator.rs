use vstd::prelude::*;

use crate::errors::AppError;
use crate::text::{chars_of, push_str, string_of};

verus! {

pub open spec fn is_ascii_letter(c: char) -> bool {
    ('a' <= c && c <= 'z') || ('A' <= c && c <= 'Z')
}

pub open spec fn is_ascii_digit(c: char) -> bool {
    '0' <= c && c <= '9'
}

pub open spec fn all_chars(s: Seq<char>, lo: int, hi: int, f: spec_fn(char) -> bool) -> bool {
    forall|i: int| lo <= i < hi ==> f(#[trigger] s[i])
}

/// `[a-zA-Z0-9_]`
pub open spec fn is_username_char(c: char) -> bool {
    is_ascii_letter(c) || is_ascii_digit(c) || c == '_'
}

/// `[a-zA-Z0-9._%+-]`
pub open spec fn is_email_local_char(c: char) -> bool {
    is_ascii_letter(c) || is_ascii_digit(c) || c == '.' || c == '_' || c == '%' || c == '+' || c == '-'
}

/// `[a-zA-Z0-9.-]`
pub open spec fn is_email_domain_char(c: char) -> bool {
    is_ascii_letter(c) || is_ascii_digit(c) || c == '.' || c == '-'
}

/// `^[a-zA-Z0-9_]{3,30}$`
pub open spec fn username_shape(s: Seq<char>) -> bool {
    3 <= s.len() <= 30 && all_chars(s, 0, s.len() as int, |c: char| is_username_char(c))
}

/// `^[a-zA-Z0-9._%+-]+@[a-zA-Z0-9.-]+\.[a-zA-Z]{2,}$`: a local part, an `@`,
/// a domain part, a dot, and a top-level label of at least two letters.
pub open spec fn email_shape(s: Seq<char>) -> bool {
    exists|at: int, dot: int|
        0 < at && at + 1 < dot && dot + 3 <= s.len()
            && #[trigger] s[at] == '@' && #[trigger] s[dot] == '.'
            && all_chars(s, 0, at, |c: char| is_email_local_char(c))
            && all_chars(s, at + 1, dot, |c: char| is_email_domain_char(c))
            && all_chars(s, dot + 1, s.len() as int, |c: char| is_ascii_letter(c))
}

/// Whether `^\+?[1-9]\d{1,14}$` matches, with `\d` the Unicode decimal digits.
pub uninterp spec fn phone_shape(s: Seq<char>) -> bool;

/// Relies on `regex::Regex::is_match` with the pattern
/// `^[a-zA-Z0-9._%+-]+@[a-zA-Z0-9.-]+\.[a-zA-Z]{2,}$`.
#[verifier::external_body]
fn email_regex_matches(s: &str) -> (r: bool)
    ensures
        r == email_shape(s@),
{
    match regex::Regex::new(r"^[a-zA-Z0-9._%+-]+@[a-zA-Z0-9.-]+\.[a-zA-Z]{2,}$") {
        Ok(re) => re.is_match(s),
        Err(_) => false,
    }
}

/// Relies on `regex::Regex::is_match` with the pattern `^[a-zA-Z0-9_]{3,30}$`.
#[verifier::external_body]
fn username_regex_matches(s: &str) -> (r: bool)
    ensures
        r == username_shape(s@),
{
    match regex::Regex::new(r"^[a-zA-Z0-9_]{3,30}$") {
        Ok(re) => re.is_match(s),
        Err(_) => false,
    }
}

/// Relies on `regex::Regex::is_match` with the pattern `^\+?[1-9]\d{1,14}$`.
#[verifier::external_body]
fn phone_regex_matches(s: &str) -> (r: bool)
    ensures
        r == phone_shape(s@),
{
    match regex::Regex::new(r"^\+?[1-9]\d{1,14}$") {
        Ok(re) => re.is_match(s),
        Err(_) => false,
    }
}

/// Accepts a well-formed email address.
pub fn validate_email(email: &str) -> (r: Result<(), AppError>)
    ensures
        r is Ok <==> email_shape(email@),
        r matches Err(e) ==> e is ValidationError,
{
    if !email_regex_matches(email) {
        return Err(AppError::ValidationError("Invalid email format".to_string()));
    }
    Ok(())
}

/// Accepts 3 to 30 letters, digits and underscores.
pub fn validate_username(username: &str) -> (r: Result<(), AppError>)
    ensures
        r is Ok <==> username_shape(username@),
        r matches Err(e) ==> e is ValidationError,
{
    if !username_regex_matches(username) {
        return Err(AppError::ValidationError(
            "Username must be 3-30 characters long and contain only letters, numbers, and underscores".to_string(),
        ));
    }
    Ok(())
}

/// Accepts a phone number in international form.
pub fn validate_phone(phone: &str) -> (r: Result<(), AppError>)
    ensures
        r is Ok <==> phone_shape(phone@),
        r matches Err(e) ==> e is ValidationError,
{
    if !phone_regex_matches(phone) {
        return Err(AppError::ValidationError("Invalid phone number format".to_string()));
    }
    Ok(())
}

/// What one input character becomes: `<`, `>`, `"` and `'` are replaced by
/// their entities, and then every `&`, those of the entities included, by
/// `&amp;`.
pub open spec fn sanitized_char(c: char) -> Seq<char> {
    if c == '<' {
        "&amp;lt;"@
    } else if c == '>' {
        "&amp;gt;"@
    } else if c == '"' {
        "&amp;quot;"@
    } else if c == '\'' {
        "&amp;#x27;"@
    } else if c == '&' {
        "&amp;"@
    } else {
        seq![c]
    }
}

pub open spec fn sanitized(s: Seq<char>) -> Seq<char>
    decreases s.len(),
{
    if s.len() == 0 { seq![] } else { sanitized(s.drop_last()) + sanitized_char(s.last()) }
}

/// Escapes HTML-significant characters of user input.
pub fn sanitize_input(input: &str) -> (r: String)
    ensures
        r@ == sanitized(input@),
{
    let cs = chars_of(input);
    let mut out: Vec<char> = Vec::new();
    let mut i: usize = 0;
    while i < cs.len()
        invariant
            i <= cs@.len(),
            out@ == sanitized(cs@.subrange(0, i as int)),
        decreases cs@.len() - i,
    {
        let c = cs[i];
        if c == '<' {
            push_str(&mut out, "&amp;lt;");
        } else if c == '>' {
            push_str(&mut out, "&amp;gt;");
        } else if c == '"' {
            push_str(&mut out, "&amp;quot;");
        } else if c == '\'' {
            push_str(&mut out, "&amp;#x27;");
        } else if c == '&' {
            push_str(&mut out, "&amp;");
        } else {
            out.push(c);
        }
        assert(cs@.subrange(0, i + 1).drop_last() =~= cs@.subrange(0, i as int));
        i = i + 1;
    }
    assert(cs@.subrange(0, i as int) =~= cs@);
    string_of(&out)
}

} // verus!
