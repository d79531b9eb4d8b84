use saas_axum::auth::{login, login_at, AuthResponse, LoginRequest, RegisterRequest};
use saas_axum::errors::AppError;
use saas_axum::jwt::{generate_token, issue_token, verify_access_token_at, Claims, TokenType};
use saas_axum::middleware::{auth_middleware, authorize_now};
use saas_axum::password::hash_password;
use saas_axum::register::{
    register, NewUser, RegisterAction, RegisterEvent, RegisterFlow, RegisterState,
};
use saas_axum::user::{get_user_by_id, list_users, UserRecord};

const SECRET: &str = "flow-secret";
const NOW: i64 = 1_700_000_000;

fn record(hash: &str, status: i32) -> UserRecord {
    UserRecord {
        id: 5,
        username: "alice".to_string(),
        email: "a@x.com".to_string(),
        password_hash: hash.to_string(),
        nickname: "Alice".to_string(),
        avatar: None,
        role_id: Some(2),
        status,
    }
}

fn login_req(password: &str) -> LoginRequest {
    LoginRequest { username: "alice".to_string(), password: password.to_string() }
}

fn alice_registration() -> RegisterRequest {
    RegisterRequest {
        username: "alice".to_string(),
        email: "a@x.com".to_string(),
        password: "Passw0rd!".to_string(),
        nickname: "Alice".to_string(),
    }
}

#[test]
fn login_unknown_user_and_wrong_password_look_the_same() {
    let hash = hash_password("Passw0rd!").unwrap();
    let unknown = login_at(None, &login_req("Passw0rd!"), SECRET, 3600, NOW);
    let wrong = login_at(Some(record(&hash, 1)), &login_req("wrong-pass"), SECRET, 3600, NOW);
    assert_eq!(unknown, Err(AppError::Unauthorized("invalid credentials".to_string())));
    assert_eq!(unknown, wrong);
}

#[test]
fn login_disabled_account_is_forbidden() {
    let hash = hash_password("Passw0rd!").unwrap();
    let r = login_at(Some(record(&hash, 0)), &login_req("Passw0rd!"), SECRET, 3600, NOW);
    assert_eq!(r, Err(AppError::Forbidden("account disabled".to_string())));
}

#[test]
fn login_with_corrupt_stored_hash_is_internal() {
    let r = login_at(Some(record("garbage", 1)), &login_req("Passw0rd!"), SECRET, 3600, NOW);
    assert!(matches!(r, Err(AppError::Internal(_))));
}

#[test]
fn login_success_issues_access_token() {
    let hash = hash_password("Passw0rd!").unwrap();
    let resp: AuthResponse = login_at(Some(record(&hash, 1)), &login_req("Passw0rd!"), SECRET, 3600, NOW).unwrap();
    assert_eq!(resp.token_type, "Bearer");
    assert_eq!(resp.expires_in, 3600);
    assert_eq!(resp.refresh_token, None);
    assert_eq!(resp.user.username, "alice");
    assert_eq!(resp.user.role_id, Some(2));
    let expected = issue_token(5, "alice".to_string(), 2, TokenType::Access, 3600, NOW, SECRET).unwrap();
    assert_eq!(resp.access_token, expected);
    let c = verify_access_token_at(&resp.access_token, SECRET, NOW + 10).unwrap();
    assert_eq!((c.sub, c.exp, c.iat), (5, NOW + 3600, NOW));
}

#[test]
fn login_against_the_clock() {
    let hash = hash_password("Passw0rd!").unwrap();
    let resp = login(Some(record(&hash, 1)), &login_req("Passw0rd!"), SECRET, 600).unwrap();
    let header = format!("Bearer {}", resp.access_token);
    assert_eq!(authorize_now(Some(&header), SECRET).unwrap().username, "alice");
    assert_eq!(login(None, &login_req("x"), SECRET, 600), Err(AppError::Unauthorized("invalid credentials".to_string())));
}

#[test]
fn login_request_validation() {
    assert_eq!(login_req("secret").validate(), Ok(()));
    assert!(matches!(login_req("12345").validate(), Err(AppError::ValidationError(_))));
    let short = LoginRequest { username: "al".to_string(), password: "secret".to_string() };
    assert!(matches!(short.validate(), Err(AppError::ValidationError(_))));
}

#[test]
fn register_request_validation() {
    assert_eq!(alice_registration().validate(), Ok(()));
    let weak = RegisterRequest { password: "password".to_string(), ..alice_registration() };
    assert_eq!(
        weak.validate(),
        Err(AppError::ValidationError("Password must contain at least one uppercase letter".to_string()))
    );
    let bad_email = RegisterRequest { email: "nope".to_string(), ..alice_registration() };
    assert_eq!(bad_email.validate(), Err(AppError::ValidationError("Invalid email format".to_string())));
    let short_nick = RegisterRequest { nickname: "A".to_string(), ..alice_registration() };
    assert!(matches!(short_nick.validate(), Err(AppError::ValidationError(_))));
}

#[test]
fn register_duplicate_username_conflicts_before_hashing() {
    let (mut flow, action) = register(alice_registration());
    assert_eq!(action, RegisterAction::FindUserByUsername("alice".to_string()));
    let action = flow.step(RegisterEvent::UsernameLookup { taken: true });
    assert_eq!(action, RegisterAction::Finish(Err(AppError::Conflict("Username already exists".to_string()))));
    assert_eq!(flow.state, RegisterState::Done);
    // nothing reported afterwards leads to hashing
    let action = flow.step(RegisterEvent::DefaultRole { role_id: Some(2) });
    assert!(matches!(action, RegisterAction::Finish(Err(_))));
}

#[test]
fn register_duplicate_email_conflicts() {
    let (mut flow, _) = RegisterFlow::start(alice_registration());
    assert_eq!(
        flow.step(RegisterEvent::UsernameLookup { taken: false }),
        RegisterAction::FindUserByEmail("a@x.com".to_string())
    );
    assert_eq!(
        flow.step(RegisterEvent::EmailLookup { taken: true }),
        RegisterAction::Finish(Err(AppError::Conflict("Email already exists".to_string())))
    );
}

#[test]
fn register_invalid_request_stops_at_once() {
    let (flow, action) = register(RegisterRequest { password: "short".to_string(), ..alice_registration() });
    assert_eq!(flow.state, RegisterState::Done);
    assert!(matches!(action, RegisterAction::Finish(Err(AppError::ValidationError(_)))));
}

#[test]
fn register_missing_role_and_storage_failure() {
    let (mut flow, _) = register(alice_registration());
    flow.step(RegisterEvent::UsernameLookup { taken: false });
    flow.step(RegisterEvent::EmailLookup { taken: false });
    assert_eq!(
        flow.step(RegisterEvent::DefaultRole { role_id: None }),
        RegisterAction::Finish(Err(AppError::Internal("Default role not found".to_string())))
    );
    let (mut flow, _) = register(alice_registration());
    assert_eq!(
        flow.step(RegisterEvent::StorageFailed { message: "down".to_string() }),
        RegisterAction::Finish(Err(AppError::DatabaseError("down".to_string())))
    );
}

/// Runs a registration against an in-memory table of users.
fn run_registration(users: &mut Vec<UserRecord>, req: RegisterRequest) -> Result<i32, AppError> {
    let (mut flow, mut action) = register(req);
    loop {
        let event = match action {
            RegisterAction::FindUserByUsername(name) => {
                RegisterEvent::UsernameLookup { taken: users.iter().any(|u| u.username == name) }
            }
            RegisterAction::FindUserByEmail(email) => {
                RegisterEvent::EmailLookup { taken: users.iter().any(|u| u.email == email) }
            }
            RegisterAction::FindDefaultRole => RegisterEvent::DefaultRole { role_id: Some(2) },
            RegisterAction::HashPassword(p) => RegisterEvent::Hashed { result: hash_password(&p) },
            RegisterAction::InsertUser(NewUser { username, email, nickname, password_hash, role_id, status }) => {
                let id = users.len() as i32 + 1;
                users.push(UserRecord { id, username, email, password_hash, nickname, avatar: None, role_id, status });
                RegisterEvent::Inserted { user_id: id }
            }
            RegisterAction::Finish(r) => return r,
        };
        action = flow.step(event);
    }
}

#[test]
fn end_to_end_register_login_and_profile() {
    let mut users: Vec<UserRecord> = Vec::new();
    let id = run_registration(&mut users, alice_registration()).unwrap();
    assert_eq!(id, 1);
    assert_eq!(users[0].username, "alice");
    assert_eq!(users[0].role_id, Some(2));
    assert_ne!(users[0].password_hash, "Passw0rd!");

    let found = users.iter().find(|u| u.username == "alice").cloned();
    let resp = login_at(found, &login_req("Passw0rd!"), SECRET, 3600, NOW).unwrap();
    assert!(!resp.access_token.is_empty());

    let header = format!("Bearer {}", resp.access_token);
    let claims: Claims = auth_middleware(Some(&header), SECRET, NOW + 1).unwrap();
    let me = get_user_by_id(users.iter().find(|u| u.id == claims.sub).cloned()).unwrap();
    assert_eq!(me.username, "alice");
    assert_eq!(me.email, "a@x.com");

    let truncated = &header[..header.len() - 1];
    let denied = auth_middleware(Some(truncated), SECRET, NOW + 1);
    assert!(matches!(denied, Err(AppError::Unauthorized(_))));
    assert_eq!(denied.unwrap_err().status_code(), 401);

    // a second registration of the same username conflicts
    let again = run_registration(&mut users, alice_registration());
    assert_eq!(again, Err(AppError::Conflict("Username already exists".to_string())));
    assert_eq!(users.len(), 1);
}

#[test]
fn access_check_rejects_each_bad_header() {
    let claims = Claims::new_access_token(5, "alice".to_string(), 2, 60, NOW);
    let token = generate_token(&claims, SECRET).unwrap();
    let ok = format!("Bearer {}", token);
    assert_eq!(auth_middleware(Some(&ok), SECRET, NOW), Ok(claims.clone()));

    let mut handler_calls = 0;
    let other_secret = format!("Bearer {}", generate_token(&claims, "other").unwrap());
    let refresh = format!(
        "Bearer {}",
        generate_token(&Claims::new_refresh_token(5, "alice".to_string(), 2, 60, NOW), SECRET).unwrap()
    );
    let mut tampered = token.clone();
    tampered.pop();
    tampered.push(if token.ends_with('A') { 'B' } else { 'A' });
    let tampered = format!("Bearer {}", tampered);
    let basic = format!("Basic {}", token);
    let lower = format!("bearer {}", token);
    let cases: Vec<(Option<&str>, i64)> = vec![
        (None, NOW),
        (Some(basic.as_str()), NOW),
        (Some(lower.as_str()), NOW),
        (Some(token.as_str()), NOW),
        (Some(ok.as_str()), NOW + 60),
        (Some(tampered.as_str()), NOW),
        (Some(other_secret.as_str()), NOW),
        (Some(refresh.as_str()), NOW),
        (Some("Bearer "), NOW),
    ];
    for (header, now) in cases {
        match auth_middleware(header, SECRET, now) {
            Ok(_) => handler_calls += 1,
            Err(e) => assert_eq!(e.status_code(), 401),
        }
    }
    assert_eq!(handler_calls, 0);
}

#[test]
fn user_profile_and_listing() {
    let u = record("h", 1);
    let p = get_user_by_id(Some(u.clone())).unwrap();
    assert_eq!((p.id, p.nickname.as_str(), p.status), (5, "Alice", 1));
    assert_eq!(get_user_by_id(None), Err(AppError::NotFound("User not found".to_string())));
    let items = list_users(&vec![u.clone(), UserRecord { id: 6, username: "bob".to_string(), ..u }]);
    assert_eq!(items.len(), 2);
    assert_eq!(items[1].username, "bob");
    assert_eq!(items[0].email, "a@x.com");
}
