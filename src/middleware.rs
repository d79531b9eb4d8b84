use vstd::prelude::*;
use vstd::utf8::encode_utf8;

use crate::errors::AppError;
use crate::jwt::{token_text, unix_now, verify_access_token_at, Claims, ClaimsView, TokenType};
use crate::text::{chars_of, has_at, string_of_range};

verus! {

pub open spec fn bearer_prefix() -> Seq<char> {
    "Bearer "@
}

/// The `Authorization` header that carries the access token of `v` signed
/// with `key`.
pub open spec fn bearer_header(v: ClaimsView, key: Seq<u8>) -> Seq<char> {
    bearer_prefix() + token_text(v, key)
}

/// The access check's decision for one request at time `now`, given its
/// `Authorization` header if it has one. On success the claims are the
/// request's identity; any failure is a 401 and the handler is not run.
pub fn auth_middleware(auth_header: Option<&str>, secret: &str, now: i64) -> (r: Result<Claims, AppError>)
    ensures
        r matches Ok(c) ==> (auth_header matches Some(h)
            && h@ == bearer_header(c@, encode_utf8(secret@))
            && now < c.exp && c.token_type == TokenType::Access),
        forall|v: ClaimsView|
            auth_header matches Some(h) && #[trigger] bearer_header(v, encode_utf8(secret@)) == h@
                && now < v.exp && v.token_type == TokenType::Access
                ==> (r matches Ok(c) && c@ == v),
        r matches Err(e) ==> e is Unauthorized,
{
    proof {
        reveal_strlit("Bearer ");
    }
    let header = match auth_header {
        None => return Err(AppError::Unauthorized("Missing authorization header".to_string())),
        Some(h) => h,
    };
    let cs = chars_of(header);
    if !has_at(&cs, 0, "Bearer ") {
        proof {
            assert forall|v: ClaimsView| #[trigger] bearer_header(v, encode_utf8(secret@)) != header@ by {
                if bearer_header(v, encode_utf8(secret@)) == header@ {
                    assert(cs@.subrange(0, 7) =~= bearer_prefix());
                }
            }
        }
        return Err(AppError::Unauthorized("Invalid authorization scheme".to_string()));
    }
    let token = string_of_range(&cs, 7, cs.len());
    proof {
        assert(header@ =~= bearer_prefix() + token@);
        assert forall|v: ClaimsView| #[trigger] bearer_header(v, encode_utf8(secret@)) == header@
            implies token_text(v, encode_utf8(secret@)) == token@ by {
            assert(token@ =~= header@.subrange(7, header@.len() as int));
            assert(token_text(v, encode_utf8(secret@)) =~= bearer_header(v, encode_utf8(secret@)).subrange(7, header@.len() as int));
        }
    }
    verify_access_token_at(token.as_str(), secret, now)
}

/// The access check against the clock.
pub fn authorize_now(auth_header: Option<&str>, secret: &str) -> (r: Result<Claims, AppError>)
    ensures
        r matches Ok(c) ==> (auth_header matches Some(h)
            && h@ == bearer_header(c@, encode_utf8(secret@)) && c.token_type == TokenType::Access),
        r matches Err(e) ==> e is Unauthorized,
{
    auth_middleware(auth_header, secret, unix_now())
}

/// A request with no `Authorization` header, or with one whose scheme is
/// not exactly `Bearer `, is never let through, whatever the key or time.
pub proof fn lemma_access_needs_bearer_header(h: Seq<char>, v: ClaimsView, key: Seq<u8>)
    requires
        !(h.len() >= 7 && h.subrange(0, 7) == bearer_prefix()),
    ensures
        bearer_header(v, key) != h,
{
    reveal_strlit("Bearer ");
    if bearer_header(v, key) == h {
        assert(h.subrange(0, 7) =~= bearer_prefix());
    }
}

} // verus!
