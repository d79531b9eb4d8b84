use saas_axum::errors::AppError;
use saas_axum::password::{hash_password, validate_password_strength, verify_password};

fn violation(p: &str) -> String {
    match validate_password_strength(p) {
        Err(AppError::ValidationError(m)) => m,
        other => panic!("unexpected {:?}", other),
    }
}

#[test]
fn strength_rules_apply_in_order() {
    assert_eq!(violation("Ab1!"), "Password must be at least 8 characters long");
    assert_eq!(violation(&"Ab1!".repeat(33)), "Password must not exceed 128 characters");
    assert_eq!(violation("abcdefg1!"), "Password must contain at least one uppercase letter");
    assert_eq!(violation("ABCDEFG1!"), "Password must contain at least one lowercase letter");
    assert_eq!(violation("Abcdefgh!"), "Password must contain at least one number");
    assert_eq!(violation("Abcdefgh1"), "Password must contain at least one special character");
    assert_eq!(validate_password_strength("Passw0rd!"), Ok(()));
}

#[test]
fn strength_length_counts_bytes() {
    // seven characters, nine bytes
    assert_eq!(validate_password_strength("Aé1!bcé"), Ok(()));
    assert_eq!(violation("Ab1!xyz"), "Password must be at least 8 characters long");
    assert_eq!(validate_password_strength(&format!("A1!{}", "a".repeat(125))), Ok(()));
    assert_eq!(violation(&format!("A1!{}", "a".repeat(126))), "Password must not exceed 128 characters");
}

#[test]
fn strength_uses_unicode_classes() {
    assert_eq!(validate_password_strength("ÄBCdef1!"), Ok(()));
    assert_eq!(validate_password_strength("Abcdef٣!"), Ok(()));
    // a space is neither alphabetic nor numeric, so it counts as special
    assert_eq!(validate_password_strength("Abcdef1 "), Ok(()));
}

#[test]
fn hash_then_verify_round_trip() {
    let h = hash_password("Passw0rd!").unwrap();
    assert!(h.starts_with("$argon2id$"));
    assert_ne!(h, "Passw0rd!");
    assert_eq!(verify_password("Passw0rd!", &h), Ok(true));
    assert_eq!(verify_password("Passw0rd?", &h), Ok(false));
    assert_eq!(verify_password("", &h), Ok(false));
}

#[test]
fn hashes_are_salted() {
    let a = hash_password("same password").unwrap();
    let b = hash_password("same password").unwrap();
    assert_ne!(a, b);
}

#[test]
fn malformed_hash_is_an_internal_error() {
    assert!(matches!(verify_password("x", "not a phc string"), Err(AppError::Internal(_))));
    assert!(matches!(verify_password("x", ""), Err(AppError::Internal(_))));
}
