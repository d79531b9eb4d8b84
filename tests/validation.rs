use saas_axum::errors::AppError;
use saas_axum::pagination::{default_page, default_page_size, PaginationMeta, PaginationParams};
use saas_axum::validator::{sanitize_input, validate_email, validate_phone, validate_username};

#[test]
fn email_format() {
    assert_eq!(validate_email("a@x.com"), Ok(()));
    assert_eq!(validate_email("first.last+tag@sub.example.org"), Ok(()));
    for bad in ["", "a@x", "a@x.c", "@x.com", "a@.com", "a b@x.com", "a@x.c0m", "a@@x.com"].iter() {
        assert_eq!(
            validate_email(bad),
            Err(AppError::ValidationError("Invalid email format".to_string())),
            "{}",
            bad
        );
    }
}

#[test]
fn username_format() {
    assert_eq!(validate_username("alice"), Ok(()));
    assert_eq!(validate_username("a_1"), Ok(()));
    assert_eq!(validate_username(&"x".repeat(30)), Ok(()));
    for bad in ["ab", "", "has space", "dash-ed", "ünï", &"x".repeat(31)].iter() {
        assert!(matches!(validate_username(bad), Err(AppError::ValidationError(_))), "{}", bad);
    }
}

#[test]
fn phone_format() {
    assert_eq!(validate_phone("+14155552671"), Ok(()));
    assert_eq!(validate_phone("12"), Ok(()));
    for bad in ["", "0123", "+", "1", "+1234567890123456", "12a4"].iter() {
        assert_eq!(
            validate_phone(bad),
            Err(AppError::ValidationError("Invalid phone number format".to_string())),
            "{}",
            bad
        );
    }
}

#[test]
fn sanitize_escapes_then_escapes_ampersands() {
    assert_eq!(sanitize_input("plain"), "plain");
    assert_eq!(sanitize_input("<b>"), "&amp;lt;b&amp;gt;");
    assert_eq!(sanitize_input("\"'&"), "&amp;quot;&amp;#x27;&amp;");
    assert_eq!(sanitize_input(""), "");
}

#[test]
fn pagination_offset_limit() {
    let p = PaginationParams { page: 3, page_size: 20 };
    assert_eq!(p.offset(), 40);
    assert_eq!(p.limit(), 20);
    assert_eq!(PaginationParams { page: 1, page_size: 7 }.offset(), 0);
}

#[test]
fn pagination_validate() {
    assert_eq!(PaginationParams { page: 1, page_size: 100 }.validate(), Ok(()));
    assert_eq!(
        PaginationParams { page: 0, page_size: 20 }.validate(),
        Err("Page must be greater than 0".to_string())
    );
    assert_eq!(
        PaginationParams { page: 1, page_size: 0 }.validate(),
        Err("Page size must be between 1 and 100".to_string())
    );
    assert_eq!(
        PaginationParams { page: 1, page_size: 101 }.validate(),
        Err("Page size must be between 1 and 100".to_string())
    );
}

#[test]
fn pagination_defaults() {
    let d = PaginationParams::default();
    assert_eq!((d.page, d.page_size), (1, 20));
    assert_eq!(default_page(), 1);
    assert_eq!(default_page_size(), 20);
}

#[test]
fn pagination_meta() {
    let m = PaginationMeta::new(2, 10, 25);
    assert_eq!(m.total_pages, 3);
    assert!(m.has_next && m.has_prev);
    let m = PaginationMeta::new(1, 10, 20);
    assert_eq!(m.total_pages, 2);
    assert!(m.has_next && !m.has_prev);
    let m = PaginationMeta::new(1, 10, 0);
    assert_eq!(m.total_pages, 0);
    assert!(!m.has_next);
    let m = PaginationMeta::new(1, 2, u64::MAX);
    assert_eq!(m.total_pages, u64::MAX / 2 + 1);
}

#[test]
fn error_status_and_client_message() {
    assert_eq!(AppError::Unauthorized("x".to_string()).status_code(), 401);
    assert_eq!(AppError::Forbidden("x".to_string()).status_code(), 403);
    assert_eq!(AppError::Conflict("x".to_string()).status_code(), 409);
    assert_eq!(AppError::ValidationError("x".to_string()).status_code(), 422);
    assert_eq!(AppError::NotFound("x".to_string()).status_code(), 404);
    assert_eq!(AppError::BadRequest("x".to_string()).status_code(), 400);
    assert_eq!(AppError::RateLimitExceeded.status_code(), 429);
    assert_eq!(AppError::ServiceUnavailable.status_code(), 503);
    assert_eq!(AppError::Internal("secret detail".to_string()).status_code(), 500);
    assert_eq!(AppError::Internal("secret detail".to_string()).client_message(), "Internal server error");
    assert_eq!(AppError::DatabaseError("x".to_string()).client_message(), "Database error occurred");
    assert_eq!(AppError::JwtError("x".to_string()).client_message(), "Invalid or expired token");
    assert_eq!(AppError::CacheError("x".to_string()).client_message(), "Cache operation failed");
    assert_eq!(AppError::Conflict("Username already exists".to_string()).client_message(), "Username already exists");
}
