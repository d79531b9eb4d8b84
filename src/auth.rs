use vstd::prelude::*;
use vstd::utf8::encode_utf8;

use crate::errors::AppError;
use crate::jwt::{issued_view, unix_now, token_text, Claims, TokenType, generate_token};
use crate::password::{first_violation, validate_password_strength, verify_outcome, verify_password};
use crate::user::{UserRecord, ACTIVE_STATUS};
use crate::validator::{email_shape, username_shape, validate_email, validate_username};

verus! {

// ---------------------------------------------------------------------------
// Requests and responses
// ---------------------------------------------------------------------------

/// Login payload.
#[derive(Debug, Clone, PartialEq, Eq)]
pub struct LoginRequest {
    pub username: String,
    pub password: String,
}

/// Registration payload.
#[derive(Debug, Clone, PartialEq, Eq)]
pub struct RegisterRequest {
    pub username: String,
    pub email: String,
    pub password: String,
    pub nickname: String,
}

/// Token refresh payload.
#[derive(Debug, Clone, PartialEq, Eq)]
pub struct RefreshTokenRequest {
    pub refresh_token: String,
}

/// Password change payload.
#[derive(Debug, Clone, PartialEq, Eq)]
pub struct ChangePasswordRequest {
    pub old_password: String,
    pub new_password: String,
}

/// Logout payload: all devices, or the current one only.
#[derive(Debug, Clone, PartialEq, Eq)]
pub struct LogoutRequest {
    pub all_devices: Option<bool>,
}

/// The user part of a successful login.
#[derive(Debug, Clone, PartialEq, Eq)]
pub struct UserInfo {
    pub id: i32,
    pub username: String,
    pub email: String,
    pub nickname: String,
    pub avatar: Option<String>,
    pub role_id: Option<i32>,
    pub status: i32,
}

/// A successful login: a bearer access token and who it names.
#[derive(Debug, Clone, PartialEq, Eq)]
pub struct AuthResponse {
    pub access_token: String,
    pub refresh_token: Option<String>,
    pub token_type: String,
    pub expires_in: i64,
    pub user: UserInfo,
}

pub open spec fn login_shape_ok(req: LoginRequest) -> bool {
    3 <= req.username@.len() <= 255 && req.password@.len() >= 6
}

impl LoginRequest {
    /// Checks the payload's field lengths (in characters).
    pub fn validate(&self) -> (r: Result<(), AppError>)
        ensures
            r is Ok <==> login_shape_ok(*self),
            r matches Err(e) ==> e is ValidationError,
    {
        let n = self.username.as_str().unicode_len();
        if n < 3 || n > 255 {
            return Err(AppError::ValidationError("Username must be 3-255 characters long".to_string()));
        }
        if self.password.as_str().unicode_len() < 6 {
            return Err(AppError::ValidationError("Password must be at least 6 characters long".to_string()));
        }
        Ok(())
    }
}

/// The registration payload is acceptable: a well-formed username and email,
/// a password that meets the strength policy, and a nickname of 2 to 100
/// characters.
pub open spec fn register_shape_ok(req: RegisterRequest) -> bool {
    &&& username_shape(req.username@)
    &&& email_shape(req.email@)
    &&& first_violation(req.password@, encode_utf8(req.password@).len()) is None
    &&& 2 <= req.nickname@.len() <= 100
}

impl RegisterRequest {
    /// Checks the payload, in order: username, email, password strength,
    /// nickname.
    pub fn validate(&self) -> (r: Result<(), AppError>)
        ensures
            r is Ok <==> register_shape_ok(*self),
            r matches Err(e) ==> e is ValidationError,
    {
        validate_username(self.username.as_str())?;
        validate_email(self.email.as_str())?;
        validate_password_strength(self.password.as_str())?;
        let n = self.nickname.as_str().unicode_len();
        if n < 2 || n > 100 {
            return Err(AppError::ValidationError("Nickname must be 2-100 characters long".to_string()));
        }
        Ok(())
    }
}

// ---------------------------------------------------------------------------
// Login
// ---------------------------------------------------------------------------

/// Why a login is refused.
#[derive(Debug, Clone, Copy, PartialEq, Eq, Structural)]
pub enum LoginFailure {
    /// Unknown username or wrong password: the two are not told apart.
    InvalidCredentials,
    /// Right password, disabled account.
    Disabled,
    /// The stored hash is malformed.
    CorruptHash,
}

/// The outcome of a login attempt for the record found under the username:
/// the password is checked first, the account status after it.
pub open spec fn login_failure(found: Option<UserRecord>, password: Seq<char>) -> Option<LoginFailure> {
    match found {
        None => Some(LoginFailure::InvalidCredentials),
        Some(u) => match verify_outcome(password, u.password_hash@) {
            None => Some(LoginFailure::CorruptHash),
            Some(ok) => if !ok {
                Some(LoginFailure::InvalidCredentials)
            } else if u.status != ACTIVE_STATUS {
                Some(LoginFailure::Disabled)
            } else {
                None
            },
        },
    }
}

pub open spec fn role_or_zero(role_id: Option<i32>) -> i32 {
    match role_id {
        Some(r) => r,
        None => 0,
    }
}

pub open spec fn user_info_of(i: UserInfo, u: UserRecord) -> bool {
    &&& i.id == u.id
    &&& i.username == u.username
    &&& i.email == u.email
    &&& i.nickname == u.nickname
    &&& i.avatar == u.avatar
    &&& i.role_id == u.role_id
    &&& i.status == u.status
}

/// `resp` answers a successful login of `u` at time `now`.
pub open spec fn login_response(resp: AuthResponse, u: UserRecord, ttl: i64, now: i64, key: Seq<u8>) -> bool {
    &&& resp.access_token@ == token_text(
        issued_view(u.id, u.username@, role_or_zero(u.role_id), TokenType::Access, ttl, now),
        key,
    )
    &&& resp.refresh_token is None
    &&& resp.token_type@ == "Bearer"@
    &&& resp.expires_in == ttl
    &&& user_info_of(resp.user, u)
}

/// The error that each login failure is answered with.
pub open spec fn login_error(f: LoginFailure, e: AppError) -> bool {
    match f {
        LoginFailure::InvalidCredentials => e matches AppError::Unauthorized(m) && m@ == "invalid credentials"@,
        LoginFailure::Disabled => e matches AppError::Forbidden(m) && m@ == "account disabled"@,
        LoginFailure::CorruptHash => e is Internal,
    }
}

fn invalid_credentials() -> (e: AppError)
    ensures
        login_error(LoginFailure::InvalidCredentials, e),
{
    AppError::Unauthorized("invalid credentials".to_string())
}

/// Logs in at time `now`, given the record that the lookup by
/// `req.username` found: verifies the password, then the account status,
/// then issues an access token that holds for `ttl` seconds.
pub fn login_at(found: Option<UserRecord>, req: &LoginRequest, secret: &str, ttl: i64, now: i64) -> (r: Result<AuthResponse, AppError>)
    requires
        0 < ttl,
        now + ttl <= i64::MAX,
    ensures
        login_failure(found, req.password@) matches Some(f) ==> (r matches Err(e) && login_error(f, e)),
        login_failure(found, req.password@) is None ==> (r matches Ok(resp)
            && login_response(resp, found->Some_0, ttl, now, encode_utf8(secret@))),
{
    let u = match found {
        None => return Err(invalid_credentials()),
        Some(u) => u,
    };
    let ok = verify_password(req.password.as_str(), u.password_hash.as_str())?;
    if !ok {
        return Err(invalid_credentials());
    }
    if u.status != ACTIVE_STATUS {
        return Err(AppError::Forbidden("account disabled".to_string()));
    }
    let role: i32 = match u.role_id {
        Some(r) => r,
        None => 0,
    };
    let claims = Claims::new_access_token(u.id, u.username.clone(), role, ttl, now);
    let token = generate_token(&claims, secret)?;
    Ok(AuthResponse {
        access_token: token,
        refresh_token: None,
        token_type: "Bearer".to_string(),
        expires_in: ttl,
        user: UserInfo {
            id: u.id,
            username: u.username,
            email: u.email,
            nickname: u.nickname,
            avatar: u.avatar,
            role_id: u.role_id,
            status: u.status,
        },
    })
}

/// Logs in against the clock: as `login_at`, with the time read before the
/// password is checked. (A clock reading so late that the token's expiry
/// would not fit in an `i64` is taken as the last instant at which it does.)
pub fn login(found: Option<UserRecord>, req: &LoginRequest, secret: &str, ttl: i64) -> (r: Result<AuthResponse, AppError>)
    requires
        0 < ttl,
    ensures
        login_failure(found, req.password@) matches Some(f) ==> (r matches Err(e) && login_error(f, e)),
        login_failure(found, req.password@) is None ==> (r matches Ok(resp)
            && exists|now: i64| login_response(resp, found->Some_0, ttl, now, encode_utf8(secret@))),
{
    let clock = unix_now();
    let now = if clock > i64::MAX - ttl { i64::MAX - ttl } else { clock };
    login_at(found, req, secret, ttl, now)
}

/// A wrong password for an existing user and an unknown username are
/// refused alike, with nothing that tells the two apart.
pub proof fn lemma_login_no_user_oracle(u: UserRecord, password: Seq<char>)
    requires
        verify_outcome(password, u.password_hash@) == Some(false),
    ensures
        login_failure(Some(u), password) == Some(LoginFailure::InvalidCredentials),
        login_failure(Some(u), password) == login_failure(None, password),
{
}

/// With the right password, a disabled account is refused as forbidden, not
/// as bad credentials.
pub proof fn lemma_disabled_account_forbidden(u: UserRecord, password: Seq<char>)
    requires
        verify_outcome(password, u.password_hash@) == Some(true),
        u.status != ACTIVE_STATUS,
    ensures
        login_failure(Some(u), password) == Some(LoginFailure::Disabled),
{
}

} // verus!
