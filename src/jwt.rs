use vstd::prelude::*;
use vstd::utf8::{encode_utf8, valid_utf8};

use base64::Engine;

use crate::codec::{claims_text, read_claims, write_claims};
use crate::errors::AppError;
use crate::text::{chars_of, find_char, string_of, string_of_range};

verus! {

/// Which use a token was issued for.
#[derive(Clone, Copy, Debug, PartialEq, Eq, Structural)]
pub enum TokenType {
    Access,
    Refresh,
}

/// The signed payload of a token: who it names and for how long it holds.
#[derive(Clone, Debug, PartialEq, Eq)]
pub struct Claims {
    /// User id (subject).
    pub sub: i32,
    pub username: String,
    /// Role id, for policy decisions downstream.
    pub role_id: i32,
    /// Expiry, in Unix seconds.
    pub exp: i64,
    /// Issue time, in Unix seconds.
    pub iat: i64,
    /// Issuer.
    pub iss: String,
    pub token_type: TokenType,
}

/// The mathematical value of a `Claims`.
pub struct ClaimsView {
    pub sub: i32,
    pub username: Seq<char>,
    pub role_id: i32,
    pub exp: i64,
    pub iat: i64,
    pub iss: Seq<char>,
    pub token_type: TokenType,
}

impl ClaimsView {
    /// A token expires after it was issued.
    pub open spec fn wf(self) -> bool {
        self.iat < self.exp
    }
}

impl View for Claims {
    type V = ClaimsView;

    open spec fn view(&self) -> ClaimsView {
        ClaimsView {
            sub: self.sub,
            username: self.username@,
            role_id: self.role_id,
            exp: self.exp,
            iat: self.iat,
            iss: self.iss@,
            token_type: self.token_type,
        }
    }
}

// ---------------------------------------------------------------------------
// Outside primitives
// ---------------------------------------------------------------------------

#[verifier::external_type_specification]
#[verifier::external_body]
pub struct ExJwtError(jsonwebtoken::errors::Error);

/// The 6-bit digits of the unpadded base64url encoding of a byte string.
pub uninterp spec fn b64url_digits(b: Seq<u8>) -> Seq<u8>;

/// The HMAC-SHA256 of `msg` under `key`.
pub uninterp spec fn hmac_sha256(msg: Seq<u8>, key: Seq<u8>) -> Seq<u8>;

/// The base64url alphabet.
pub open spec fn b64url_char(d: u8) -> char {
    if d < 26 {
        (('A' as u32) + d as u32) as char
    } else if d < 52 {
        (('a' as u32) + (d - 26) as u32) as char
    } else if d < 62 {
        (('0' as u32) + (d - 52) as u32) as char
    } else if d == 62 {
        '-'
    } else {
        '_'
    }
}

pub open spec fn b64url_text(digits: Seq<u8>) -> Seq<char> {
    digits.map_values(|d: u8| b64url_char(d))
}

/// The unpadded base64url text of a byte string.
pub open spec fn b64url(b: Seq<u8>) -> Seq<char> {
    b64url_text(b64url_digits(b))
}

/// The HS256 signature of `msg` under `key`, as JWT writes it.
pub open spec fn hs256(msg: Seq<u8>, key: Seq<u8>) -> Seq<char> {
    b64url_text(b64url_digits(hmac_sha256(msg, key)))
}

/// Relies on base64's `URL_SAFE_NO_PAD` engine, `Engine::encode`: the
/// unpadded base64url text.
#[verifier::external_body]
fn b64url_encode(b: &[u8]) -> (r: String)
    ensures
        r@ == b64url_text(b64url_digits(b@)),
{
    base64::engine::general_purpose::URL_SAFE_NO_PAD.encode(b)
}

/// Relies on base64's `URL_SAFE_NO_PAD` engine, `Engine::decode`: it
/// accepts exactly the canonical unpadded encodings (no padding, no
/// trailing bits) and returns the bytes they encode.
#[verifier::external_body]
fn b64url_decode(s: &str) -> (r: Option<Vec<u8>>)
    ensures
        r is Some ==> b64url_text(b64url_digits(r->Some_0@)) == s@,
        forall|b: Seq<u8>| b64url_text(#[trigger] b64url_digits(b)) == s@ ==> r is Some && r->Some_0@ == b,
{
    base64::engine::general_purpose::URL_SAFE_NO_PAD.decode(s).ok()
}

/// Relies on `jsonwebtoken::crypto::sign` with `Algorithm::HS256` and
/// `EncodingKey::from_secret`: for the HMAC algorithms it always succeeds and
/// returns the unpadded base64url text of ring's HMAC-SHA256 tag.
#[verifier::external_body]
fn hs256_sign(msg: &[u8], key: &[u8]) -> (r: Result<String, jsonwebtoken::errors::Error>)
    ensures
        r is Ok,
        r is Ok ==> r->Ok_0@ == b64url_text(b64url_digits(hmac_sha256(msg@, key@))),
{
    jsonwebtoken::crypto::sign(
        msg,
        &jsonwebtoken::EncodingKey::from_secret(key),
        jsonwebtoken::Algorithm::HS256,
    )
}

/// Relies on `jsonwebtoken::crypto::verify` with `Algorithm::HS256` and
/// `DecodingKey::from_secret`: for the HMAC algorithms it signs `msg` again
/// and compares the result with `sig` in constant time; it always succeeds.
#[verifier::external_body]
fn hs256_verify(sig: &str, msg: &[u8], key: &[u8]) -> (r: Result<bool, jsonwebtoken::errors::Error>)
    ensures
        r is Ok,
        r is Ok ==> r->Ok_0 == (sig@ == b64url_text(b64url_digits(hmac_sha256(msg@, key@)))),
{
    jsonwebtoken::crypto::verify(
        sig,
        msg,
        &jsonwebtoken::DecodingKey::from_secret(key),
        jsonwebtoken::Algorithm::HS256,
    )
}

/// Relies on `String::from_utf8`: succeeds exactly on valid UTF-8 and keeps
/// the bytes as they are.
#[verifier::external_body]
fn utf8_string(v: Vec<u8>) -> (r: Option<String>)
    ensures
        r is Some == valid_utf8(v@),
        r is Some ==> encode_utf8(r->Some_0@) == v@,
{
    String::from_utf8(v).ok()
}

/// Relies on `chrono::Utc::now().timestamp()`: the current Unix time in seconds.
#[verifier::external_body]
pub(crate) fn unix_now() -> (r: i64) {
    chrono::Utc::now().timestamp()
}

// ---------------------------------------------------------------------------
// Tokens
// ---------------------------------------------------------------------------

/// The JOSE header of every token this library issues.
pub open spec fn header_json() -> Seq<char> {
    "{\"typ\":\"JWT\",\"alg\":\"HS256\"}"@
}

pub open spec fn header_segment() -> Seq<char> {
    b64url(encode_utf8(header_json()))
}

/// The signed part of the token of `c`: header and payload segments.
pub open spec fn signing_input(c: ClaimsView) -> Seq<char> {
    header_segment() + seq!['.'] + b64url(encode_utf8(claims_text(c)))
}

/// The token of `c` signed with `key`: three base64url segments joined by dots.
pub open spec fn token_text(c: ClaimsView, key: Seq<u8>) -> Seq<char> {
    signing_input(c) + seq!['.'] + hs256(encode_utf8(signing_input(c)), key)
}

pub open spec fn has_no_dot(s: Seq<char>) -> bool {
    forall|i: int| 0 <= i < s.len() ==> s[i] != '.'
}

fn header_segment_exec() -> (r: String)
    ensures
        r@ == header_segment(),
{
    let h = "{\"typ\":\"JWT\",\"alg\":\"HS256\"}";
    b64url_encode(h.as_bytes())
}

/// Signs `claims` with `secret` into a token.
pub fn generate_token(claims: &Claims, secret: &str) -> (r: Result<String, AppError>)
    ensures
        r matches Ok(t) && t@ == token_text(claims@, encode_utf8(secret@)),
{
    proof {
        reveal_strlit(".");
    }
    let mut t = header_segment_exec();
    let payload = string_of(&write_claims(claims));
    let p = b64url_encode(payload.as_str().as_bytes());
    t.append(".");
    t.append(p.as_str());
    let ghost input = t@;
    assert(input == signing_input(claims@));
    match hs256_sign(t.as_str().as_bytes(), secret.as_bytes()) {
        Ok(sig) => {
            t.append(".");
            t.append(sig.as_str());
            Ok(t)
        },
        Err(_) => Err(AppError::Internal("Token signing failed".to_string())),
    }
}

proof fn lemma_b64url_no_dot(d: Seq<u8>)
    ensures
        has_no_dot(b64url_text(d)),
{
    assert forall|i: int| 0 <= i < b64url_text(d).len() implies b64url_text(d)[i] != '.' by {
        let x = d[i];
        if x < 26 {
            assert(('A' as u32) + x as u32 != '.' as u32);
        } else if x < 52 {
            assert(('a' as u32) + (x - 26) as u32 != '.' as u32);
        } else if x < 62 {
            assert(('0' as u32) + (x - 52) as u32 != '.' as u32);
        }
        vstd::utf8::char_u32_cast('.', '.' as u32);
    }
}

/// The message that refuses a sound token past its expiry.
pub open spec fn expired_message() -> Seq<char> {
    "token expired"@
}

/// Checks the token's signature against `secret`, then its encoding, then
/// its expiry at time `now`. The signature is checked before anything else.
pub fn verify_token_at(token: &str, secret: &str, now: i64) -> (r: Result<Claims, AppError>)
    ensures
        r matches Ok(c) ==> token@ == token_text(c@, encode_utf8(secret@)) && now < c.exp,
        forall|v: ClaimsView| #[trigger] token_text(v, encode_utf8(secret@)) == token@ ==> {
            if now < v.exp {
                r matches Ok(c) && c@ == v
            } else {
                r matches Err(AppError::Unauthorized(m)) && m@ == expired_message()
            }
        },
        r matches Err(e) ==> e is Unauthorized,
{
    let ghost key = encode_utf8(secret@);
    let chars = chars_of(token);
    let n = chars.len();
    let d1 = find_char(&chars, 0, '.');
    let header = header_segment_exec();
    // For the token of any claims value, the three segments sit where the dots are.
    proof {
        assert forall|v: ClaimsView| #[trigger] token_text(v, key) == token@ implies ({
            let h = header_segment();
            let p = b64url(encode_utf8(claims_text(v)));
            let si = signing_input(v);
            &&& d1 == h.len()
            &&& chars@.subrange(0, d1 as int) == h
            &&& chars@.subrange(d1 + 1, d1 + 1 + p.len()) == p
            &&& d1 + 1 + p.len() < n
            &&& chars@[d1 + 1 + p.len()] == '.'
            &&& chars@.subrange(0, d1 + 1 + p.len()) == si
            &&& chars@.subrange(d1 + 2 + p.len(), n as int) == hs256(encode_utf8(si), key)
            &&& has_no_dot(p)
            &&& has_no_dot(hs256(encode_utf8(si), key))
        }) by {
            let h = header_segment();
            let p = b64url(encode_utf8(claims_text(v)));
            let si = signing_input(v);
            let sg = hs256(encode_utf8(si), key);
            lemma_b64url_no_dot(b64url_digits(encode_utf8(header_json())));
            lemma_b64url_no_dot(b64url_digits(encode_utf8(claims_text(v))));
            lemma_b64url_no_dot(b64url_digits(hmac_sha256(encode_utf8(si), key)));
            assert(chars@ =~= h + seq!['.'] + p + seq!['.'] + sg);
            if d1 < h.len() {
                assert(chars@[d1 as int] == h[d1 as int]);
            }
            if d1 > h.len() {
                assert(chars@[h.len() as int] == '.');
            }
            assert(chars@.subrange(0, d1 as int) =~= h);
            assert(chars@.subrange(d1 + 1, d1 + 1 + p.len()) =~= p);
            assert(chars@.subrange(0, d1 + 1 + p.len()) =~= si);
            assert(chars@.subrange(d1 + 2 + p.len(), n as int) =~= sg);
        }
    }
    if d1 >= n {
        return Err(AppError::Unauthorized("Invalid token".to_string()));
    }
    let d2 = find_char(&chars, d1 + 1, '.');
    if d2 >= n {
        return Err(AppError::Unauthorized("Invalid token".to_string()));
    }
    let d3 = find_char(&chars, d2 + 1, '.');
    if d3 < n {
        proof {
            assert forall|v: ClaimsView| #[trigger] token_text(v, key) != token@ by {
                if token_text(v, key) == token@ {
                    let p = b64url(encode_utf8(claims_text(v)));
                    let sg = hs256(encode_utf8(signing_input(v)), key);
                    assert(d2 == d1 + 1 + p.len());
                    assert(chars@.subrange(d2 + 1, n as int)[d3 - d2 - 1] == chars@[d3 as int]);
                }
            }
        }
        return Err(AppError::Unauthorized("Invalid token".to_string()));
    }
    let head = string_of_range(&chars, 0, d1);
    let signed = string_of_range(&chars, 0, d2);
    let sig = string_of_range(&chars, d2 + 1, n);
    proof {
        assert forall|v: ClaimsView| #[trigger] token_text(v, key) == token@ implies
            d2 == d1 + 1 + b64url(encode_utf8(claims_text(v))).len() by {
            let p = b64url(encode_utf8(claims_text(v)));
            if d2 < d1 + 1 + p.len() {
                assert(chars@.subrange(d1 + 1, d1 + 1 + p.len())[d2 - d1 - 1] == chars@[d2 as int]);
            }
        }
    }
    // The header: only the one this library writes is accepted.
    let head_ok = head == header;
    if !head_ok {
        return Err(AppError::Unauthorized("Invalid token".to_string()));
    }
    // The signature, before anything is read from the payload.
    let sig_ok = match hs256_verify(sig.as_str(), signed.as_str().as_bytes(), secret.as_bytes()) {
        Ok(b) => b,
        Err(_) => false,
    };
    if !sig_ok {
        return Err(AppError::Unauthorized("Invalid token".to_string()));
    }
    let payload_text = string_of_range(&chars, d1 + 1, d2);
    let bytes = match b64url_decode(payload_text.as_str()) {
        Some(b) => b,
        None => return Err(AppError::Unauthorized("Invalid token".to_string())),
    };
    let ghost payload_bytes = bytes@;
    let json = match utf8_string(bytes) {
        Some(j) => j,
        None => {
            proof {
                assert forall|v: ClaimsView| #[trigger] token_text(v, key) != token@ by {
                    if token_text(v, key) == token@ {
                        vstd::utf8::encode_utf8_valid_utf8(claims_text(v));
                    }
                }
            }
            return Err(AppError::Unauthorized("Invalid token".to_string()));
        },
    };
    let claims = match read_claims(&chars_of(json.as_str())) {
        Some(c) => c,
        None => {
            proof {
                assert forall|v: ClaimsView| #[trigger] token_text(v, key) != token@ by {
                    if token_text(v, key) == token@ {
                        vstd::utf8::encode_utf8_decode_utf8(claims_text(v));
                        vstd::utf8::encode_utf8_decode_utf8(json@);
                    }
                }
            }
            return Err(AppError::Unauthorized("Invalid token".to_string()));
        },
    };
    proof {
        assert(payload_bytes == encode_utf8(claims_text(claims@)));
        assert(payload_text@ == b64url(encode_utf8(claims_text(claims@))));
        assert(token@ =~= chars@.subrange(0, d2 as int) + seq!['.'] + chars@.subrange(d2 + 1, n as int));
        assert(chars@.subrange(0, d2 as int) =~= chars@.subrange(0, d1 as int) + seq!['.'] + chars@.subrange(d1 + 1, d2 as int));
        assert(token@ == token_text(claims@, key));
        assert forall|v: ClaimsView| #[trigger] token_text(v, key) == token@ implies claims@ == v by {
            vstd::utf8::encode_utf8_decode_utf8(claims_text(v));
            vstd::utf8::encode_utf8_decode_utf8(json@);
        }
    }
    if claims.is_expired(now) {
        return Err(AppError::Unauthorized("token expired".to_string()));
    }
    Ok(claims)
}

/// The claims that issuance at time `now` with lifetime `ttl` produces.
pub open spec fn issued_view(
    user_id: i32,
    username: Seq<char>,
    role_id: i32,
    token_type: TokenType,
    ttl: i64,
    now: i64,
) -> ClaimsView {
    ClaimsView {
        sub: user_id,
        username: username,
        role_id: role_id,
        exp: (now + ttl) as i64,
        iat: now,
        iss: "saas-axum"@,
        token_type: token_type,
    }
}

impl Claims {
    fn issue(user_id: i32, username: String, role_id: i32, token_type: TokenType, ttl: i64, now: i64) -> (c: Claims)
        requires
            0 < ttl,
            now + ttl <= i64::MAX,
        ensures
            c@ == issued_view(user_id, username@, role_id, token_type, ttl, now),
            c@.wf(),
    {
        Claims {
            sub: user_id,
            username,
            role_id,
            exp: now + ttl,
            iat: now,
            iss: "saas-axum".to_string(),
            token_type,
        }
    }

    /// Claims of an access token issued at `now` that hold for
    /// `expiration_seconds`.
    pub fn new_access_token(
        user_id: i32,
        username: String,
        role_id: i32,
        expiration_seconds: i64,
        now: i64,
    ) -> (c: Claims)
        requires
            0 < expiration_seconds,
            now + expiration_seconds <= i64::MAX,
        ensures
            c@ == issued_view(user_id, username@, role_id, TokenType::Access, expiration_seconds, now),
            c@.wf(),
    {
        Claims::issue(user_id, username, role_id, TokenType::Access, expiration_seconds, now)
    }

    /// Claims of a refresh token issued at `now` that hold for
    /// `expiration_seconds`.
    pub fn new_refresh_token(
        user_id: i32,
        username: String,
        role_id: i32,
        expiration_seconds: i64,
        now: i64,
    ) -> (c: Claims)
        requires
            0 < expiration_seconds,
            now + expiration_seconds <= i64::MAX,
        ensures
            c@ == issued_view(user_id, username@, role_id, TokenType::Refresh, expiration_seconds, now),
            c@.wf(),
    {
        Claims::issue(user_id, username, role_id, TokenType::Refresh, expiration_seconds, now)
    }

    /// Whether the token has expired at time `now`: at its expiry instant it
    /// no longer holds.
    pub fn is_expired(&self, now: i64) -> (r: bool)
        ensures
            r == (now >= self.exp),
    {
        now >= self.exp
    }

    pub fn is_access_token(&self) -> (r: bool)
        ensures
            r == (self.token_type == TokenType::Access),
    {
        self.token_type == TokenType::Access
    }

    pub fn is_refresh_token(&self) -> (r: bool)
        ensures
            r == (self.token_type == TokenType::Refresh),
    {
        self.token_type == TokenType::Refresh
    }
}

/// Issues a signed token of the given type for a user, at time `now`.
pub fn issue_token(
    user_id: i32,
    username: String,
    role_id: i32,
    token_type: TokenType,
    ttl: i64,
    now: i64,
    secret: &str,
) -> (r: Result<String, AppError>)
    requires
        0 < ttl,
        now + ttl <= i64::MAX,
    ensures
        r matches Ok(t) && t@ == token_text(
            issued_view(user_id, username@, role_id, token_type, ttl, now),
            encode_utf8(secret@),
        ),
{
    let c = Claims::issue(user_id, username, role_id, token_type, ttl, now);
    generate_token(&c, secret)
}

/// Accepts `claims` only for tokens of the `expected` type.
pub fn require_type(claims: Claims, expected: TokenType) -> (r: Result<Claims, AppError>)
    ensures
        claims.token_type == expected ==> r == Ok::<Claims, AppError>(claims),
        claims.token_type != expected ==> r matches Err(AppError::Unauthorized(_)),
{
    if claims.token_type == expected {
        Ok(claims)
    } else {
        Err(AppError::Unauthorized("Invalid token type".to_string()))
    }
}

/// `verify_token_at`, then a check that the token is of the `expected` type.
pub fn verify_typed_token_at(token: &str, secret: &str, now: i64, expected: TokenType) -> (r: Result<Claims, AppError>)
    ensures
        r matches Ok(c) ==> token@ == token_text(c@, encode_utf8(secret@)) && now < c.exp && c.token_type == expected,
        forall|v: ClaimsView| #[trigger] token_text(v, encode_utf8(secret@)) == token@ ==>
            (if now < v.exp && v.token_type == expected { r matches Ok(c) && c@ == v } else { r is Err }),
        r matches Err(e) ==> e is Unauthorized,
{
    let claims = verify_token_at(token, secret, now)?;
    require_type(claims, expected)
}

/// Verifies an access token at time `now`.
pub fn verify_access_token_at(token: &str, secret: &str, now: i64) -> (r: Result<Claims, AppError>)
    ensures
        r matches Ok(c) ==> token@ == token_text(c@, encode_utf8(secret@)) && now < c.exp
            && c.token_type == TokenType::Access,
        forall|v: ClaimsView| #[trigger] token_text(v, encode_utf8(secret@)) == token@ ==>
            (if now < v.exp && v.token_type == TokenType::Access { r matches Ok(c) && c@ == v } else { r is Err }),
        r matches Err(e) ==> e is Unauthorized,
{
    verify_typed_token_at(token, secret, now, TokenType::Access)
}

/// Verifies a refresh token at time `now`.
pub fn verify_refresh_token_at(token: &str, secret: &str, now: i64) -> (r: Result<Claims, AppError>)
    ensures
        r matches Ok(c) ==> token@ == token_text(c@, encode_utf8(secret@)) && now < c.exp
            && c.token_type == TokenType::Refresh,
        forall|v: ClaimsView| #[trigger] token_text(v, encode_utf8(secret@)) == token@ ==>
            (if now < v.exp && v.token_type == TokenType::Refresh { r matches Ok(c) && c@ == v } else { r is Err }),
        r matches Err(e) ==> e is Unauthorized,
{
    verify_typed_token_at(token, secret, now, TokenType::Refresh)
}

/// Verifies a token against the clock: only tokens signed with `secret`
/// that were unexpired when the clock was read pass.
pub fn verify_token(token: &str, secret: &str) -> (r: Result<Claims, AppError>)
    ensures
        r matches Ok(c) ==> token@ == token_text(c@, encode_utf8(secret@)),
        r matches Err(e) ==> e is Unauthorized,
{
    verify_token_at(token, secret, unix_now())
}

/// Verifies an access token against the clock.
pub fn verify_access_token(token: &str, secret: &str) -> (r: Result<Claims, AppError>)
    ensures
        r matches Ok(c) ==> token@ == token_text(c@, encode_utf8(secret@)) && c.token_type == TokenType::Access,
        r matches Err(e) ==> e is Unauthorized,
{
    verify_access_token_at(token, secret, unix_now())
}

/// Verifies a refresh token against the clock.
pub fn verify_refresh_token(token: &str, secret: &str) -> (r: Result<Claims, AppError>)
    ensures
        r matches Ok(c) ==> token@ == token_text(c@, encode_utf8(secret@)) && c.token_type == TokenType::Refresh,
        r matches Err(e) ==> e is Unauthorized,
{
    verify_refresh_token_at(token, secret, unix_now())
}


/// Tokens are issued with a lifetime: the claims of a token issued at
/// `issued_at` with lifetime `ttl` expire exactly at `issued_at + ttl`, so
/// (by `verify_token_at`) the token is accepted with those claims at every
/// time strictly before that instant, and refused as expired from it on.
pub proof fn lemma_issued_token_lifetime(
    user_id: i32,
    username: Seq<char>,
    role_id: i32,
    token_type: TokenType,
    ttl: i64,
    issued_at: i64,
    now: i64,
)
    requires
        0 < ttl,
        issued_at + ttl <= i64::MAX,
    ensures
        ({
            let v = issued_view(user_id, username, role_id, token_type, ttl, issued_at);
            &&& v.iat == issued_at
            &&& v.exp == issued_at + ttl
            &&& v.wf()
            &&& (now < v.exp <==> now < issued_at + ttl)
        }),
{
}

/// A token signed under one key passes verification under another key only
/// when both keys give the same HS256 tag on the token's signed part (which
/// HMAC makes negligible for different keys): verification under `k2` accepts
/// only tokens equal to some `token_text(w, k2)`.
pub proof fn lemma_other_key_needs_same_tag(v: ClaimsView, w: ClaimsView, k1: Seq<u8>, k2: Seq<u8>)
    requires
        token_text(v, k1) == token_text(w, k2),
    ensures
        signing_input(v) == signing_input(w),
        hs256(encode_utf8(signing_input(v)), k1) == hs256(encode_utf8(signing_input(v)), k2),
{
    let a = signing_input(v);
    let b = signing_input(w);
    let s1 = hs256(encode_utf8(a), k1);
    let s2 = hs256(encode_utf8(b), k2);
    let t = token_text(v, k1);
    lemma_b64url_no_dot(b64url_digits(hmac_sha256(encode_utf8(a), k1)));
    lemma_b64url_no_dot(b64url_digits(hmac_sha256(encode_utf8(b), k2)));
    assert(t =~= a + seq!['.'] + s1);
    assert(t =~= b + seq!['.'] + s2);
    if a.len() < b.len() {
        assert(t[b.len() as int] == '.');
        assert(s1[b.len() - a.len() - 1] == t[b.len() as int]);
    }
    if b.len() < a.len() {
        assert(t[a.len() as int] == '.');
        assert(s2[a.len() - b.len() - 1] == t[a.len() as int]);
    }
    assert(a =~= t.subrange(0, a.len() as int));
    assert(b =~= t.subrange(0, b.len() as int));
    assert(s1 =~= t.subrange(a.len() + 1int, t.len() as int));
    assert(s2 =~= t.subrange(b.len() + 1int, t.len() as int));
}

} // verus!
