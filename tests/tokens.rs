use base64::Engine;
use saas_axum::codec::{read_claims, write_claims};
use saas_axum::errors::AppError;
use saas_axum::jwt::{
    generate_token, issue_token, require_type, verify_access_token, verify_access_token_at, verify_refresh_token,
    verify_refresh_token_at, verify_token, verify_token_at, Claims, TokenType,
};

const SECRET: &str = "test-secret";

fn sample(token_type: TokenType) -> Claims {
    Claims {
        sub: 42,
        username: "alice".to_string(),
        role_id: 2,
        exp: 1_700_003_600,
        iat: 1_700_000_000,
        iss: "saas-axum".to_string(),
        token_type,
    }
}

fn chars(s: &str) -> Vec<char> {
    s.chars().collect()
}

#[test]
fn claims_json_is_compact_and_ordered() {
    let text: String = write_claims(&sample(TokenType::Access)).into_iter().collect();
    assert_eq!(
        text,
        r#"{"sub":42,"username":"alice","role_id":2,"exp":1700003600,"iat":1700000000,"iss":"saas-axum","token_type":"access"}"#
    );
}

#[test]
fn claims_json_matches_serde_json_encoding() {
    let mut c = sample(TokenType::Refresh);
    c.username = "q\"uo\\te\n\u{1}é".to_string();
    c.sub = -7;
    c.exp = i64::MAX;
    c.iat = i64::MIN;
    let ours: String = write_claims(&c).into_iter().collect();
    let name = serde_json::to_string(&c.username).unwrap();
    let expected = format!(
        "{{\"sub\":-7,\"username\":{},\"role_id\":2,\"exp\":{},\"iat\":{},\"iss\":\"saas-axum\",\"token_type\":\"refresh\"}}",
        name,
        i64::MAX,
        i64::MIN
    );
    assert_eq!(ours, expected);
}

#[test]
fn claims_json_round_trip() {
    let mut c = sample(TokenType::Refresh);
    c.username = "tab\there \"q\" \\ \u{1f} \u{7f} ünï".to_string();
    c.role_id = i32::MIN;
    let text = write_claims(&c);
    assert_eq!(read_claims(&text), Some(c));
}

#[test]
fn claims_json_rejects_non_canonical_text() {
    let bad = [
        r#"{"sub":042,"username":"a","role_id":2,"exp":1,"iat":0,"iss":"i","token_type":"access"}"#,
        r#"{"sub":-0,"username":"a","role_id":2,"exp":1,"iat":0,"iss":"i","token_type":"access"}"#,
        r#"{ "sub":1,"username":"a","role_id":2,"exp":1,"iat":0,"iss":"i","token_type":"access"}"#,
        r#"{"sub":1,"username":"a","role_id":2,"exp":1,"iat":0,"iss":"i","token_type":"other"}"#,
        r#"{"sub":1,"username":"a","role_id":2,"exp":1,"iat":0,"iss":"i","token_type":"access"}x"#,
        r#"{"sub":2147483648,"username":"a","role_id":2,"exp":1,"iat":0,"iss":"i","token_type":"access"}"#,
        r#"{"sub":1,"username":"a\u0041","role_id":2,"exp":1,"iat":0,"iss":"i","token_type":"access"}"#,
        r#"{"sub":1,"username":"a\/","role_id":2,"exp":1,"iat":0,"iss":"i","token_type":"access"}"#,
        "",
    ];
    for b in bad.iter() {
        assert_eq!(read_claims(&chars(b)), None, "{}", b);
    }
}

#[test]
fn token_has_standard_header_and_three_segments() {
    let token = generate_token(&sample(TokenType::Access), SECRET).unwrap();
    let parts: Vec<&str> = token.split('.').collect();
    assert_eq!(parts.len(), 3);
    assert_eq!(parts[0], "eyJ0eXAiOiJKV1QiLCJhbGciOiJIUzI1NiJ9");
    assert_ne!(parts[1], "");
    assert_eq!(parts[2].len(), 43);
}

#[test]
fn token_is_readable_by_jsonwebtoken() {
    let token = generate_token(&sample(TokenType::Access), SECRET).unwrap();
    let mut validation = jsonwebtoken::Validation::new(jsonwebtoken::Algorithm::HS256);
    validation.validate_exp = false;
    validation.required_spec_claims.clear();
    let data = jsonwebtoken::decode::<serde_json::Value>(
        &token,
        &jsonwebtoken::DecodingKey::from_secret(SECRET.as_bytes()),
        &validation,
    )
    .unwrap();
    assert_eq!(data.claims["sub"], 42);
    assert_eq!(data.claims["username"], "alice");
    assert_eq!(data.claims["token_type"], "access");
}

#[test]
fn token_signed_by_jsonwebtoken_is_accepted() {
    let json = r#"{"sub":42,"username":"alice","role_id":2,"exp":1700003600,"iat":1700000000,"iss":"saas-axum","token_type":"access"}"#;
    let header = base64::engine::general_purpose::URL_SAFE_NO_PAD.encode(r#"{"typ":"JWT","alg":"HS256"}"#);
    let payload = base64::engine::general_purpose::URL_SAFE_NO_PAD.encode(json);
    let input = format!("{}.{}", header, payload);
    let sig = jsonwebtoken::crypto::sign(
        input.as_bytes(),
        &jsonwebtoken::EncodingKey::from_secret(SECRET.as_bytes()),
        jsonwebtoken::Algorithm::HS256,
    )
    .unwrap();
    let token = format!("{}.{}", input, sig);
    let c = verify_token_at(&token, SECRET, 1_700_000_001).unwrap();
    assert_eq!(c, sample(TokenType::Access));
}

#[test]
fn token_accepted_strictly_before_expiry() {
    let ttl = 3600;
    let iat = 1_700_000_000;
    let token = issue_token(42, "alice".to_string(), 2, TokenType::Access, ttl, iat, SECRET).unwrap();
    let c = verify_token_at(&token, SECRET, iat).unwrap();
    assert_eq!(c, sample(TokenType::Access));
    assert!(verify_token_at(&token, SECRET, iat + ttl - 1).is_ok());
    assert_eq!(
        verify_token_at(&token, SECRET, iat + ttl),
        Err(AppError::Unauthorized("token expired".to_string()))
    );
    assert!(matches!(verify_token_at(&token, SECRET, iat + ttl + 1), Err(AppError::Unauthorized(_))));
}

#[test]
fn token_signed_with_other_secret_is_rejected() {
    let token = generate_token(&sample(TokenType::Access), "secret-one").unwrap();
    let other = generate_token(&sample(TokenType::Access), "secret-two").unwrap();
    assert_ne!(token, other);
    assert!(matches!(verify_token_at(&token, "secret-two", 0), Err(AppError::Unauthorized(_))));
    assert!(verify_token_at(&token, "secret-one", 0).is_ok());
}

#[test]
fn tampered_or_truncated_token_is_rejected() {
    let token = generate_token(&sample(TokenType::Access), SECRET).unwrap();
    let truncated = &token[..token.len() - 1];
    assert!(matches!(verify_token_at(truncated, SECRET, 0), Err(AppError::Unauthorized(_))));
    let forged = generate_token(&Claims { sub: 1, ..sample(TokenType::Access) }, SECRET).unwrap();
    let parts: Vec<&str> = token.split('.').collect();
    let forged_parts: Vec<&str> = forged.split('.').collect();
    let spliced = format!("{}.{}.{}", parts[0], forged_parts[1], parts[2]);
    assert!(matches!(verify_token_at(&spliced, SECRET, 0), Err(AppError::Unauthorized(_))));
    assert!(matches!(verify_token_at("not-a-token", SECRET, 0), Err(AppError::Unauthorized(_))));
    assert!(matches!(verify_token_at("a.b.c.d", SECRET, 0), Err(AppError::Unauthorized(_))));
}

#[test]
fn require_type_rejects_the_other_type() {
    assert_eq!(require_type(sample(TokenType::Access), TokenType::Access), Ok(sample(TokenType::Access)));
    assert!(matches!(require_type(sample(TokenType::Refresh), TokenType::Access), Err(AppError::Unauthorized(_))));
    assert!(matches!(require_type(sample(TokenType::Access), TokenType::Refresh), Err(AppError::Unauthorized(_))));
}

#[test]
fn typed_verification_checks_the_type() {
    let access = generate_token(&sample(TokenType::Access), SECRET).unwrap();
    let refresh = generate_token(&sample(TokenType::Refresh), SECRET).unwrap();
    assert!(verify_access_token_at(&access, SECRET, 0).is_ok());
    assert!(matches!(verify_access_token_at(&refresh, SECRET, 0), Err(AppError::Unauthorized(_))));
    assert!(verify_refresh_token_at(&refresh, SECRET, 0).is_ok());
    assert!(matches!(verify_refresh_token_at(&access, SECRET, 0), Err(AppError::Unauthorized(_))));
}

#[test]
fn clock_verification_accepts_fresh_and_rejects_expired() {
    let now = chrono::Utc::now().timestamp();
    let fresh = issue_token(1, "bob".to_string(), 0, TokenType::Access, 600, now, SECRET).unwrap();
    assert!(verify_token(&fresh, SECRET).is_ok());
    assert!(verify_access_token(&fresh, SECRET).is_ok());
    let old = issue_token(1, "bob".to_string(), 0, TokenType::Access, 600, now - 1200, SECRET).unwrap();
    assert!(matches!(verify_token(&old, SECRET), Err(AppError::Unauthorized(_))));
    let refresh = issue_token(1, "bob".to_string(), 0, TokenType::Refresh, 600, now, SECRET).unwrap();
    assert!(verify_refresh_token(&refresh, SECRET).is_ok());
    assert!(matches!(verify_refresh_token(&fresh, SECRET), Err(AppError::Unauthorized(_))));
    assert!(matches!(verify_access_token(&refresh, SECRET), Err(AppError::Unauthorized(_))));
}

#[test]
fn claims_constructors_and_predicates() {
    let c = Claims::new_access_token(7, "carol".to_string(), 3, 900, 1000);
    assert_eq!((c.sub, c.role_id, c.iat, c.exp), (7, 3, 1000, 1900));
    assert_eq!(c.iss, "saas-axum");
    assert!(c.is_access_token() && !c.is_refresh_token());
    assert!(!c.is_expired(1899));
    assert!(c.is_expired(1900));
    let r = Claims::new_refresh_token(7, "carol".to_string(), 3, 86400, 1000);
    assert_eq!(r.exp, 87400);
    assert!(r.is_refresh_token() && !r.is_access_token());
}

#[test]
fn token_round_trip_with_unusual_username() {
    let mut c = sample(TokenType::Access);
    c.username = "zoë \"the\" \\ admin\n✓".to_string();
    let token = generate_token(&c, SECRET).unwrap();
    assert_eq!(verify_token_at(&token, SECRET, 0), Ok(c));
}
