use user_crud::error::ServiceError;

#[test]
fn graphql_error_codes_are_stable() {
    let cases: Vec<(ServiceError, &str)> = vec![
        (ServiceError::NotFound("x".to_string()), "NOT_FOUND"),
        (ServiceError::InvalidId("x".to_string()), "INVALID_ID"),
        (ServiceError::ValidationError("x".to_string()), "VALIDATION_ERROR"),
        (ServiceError::DatabaseError("x".to_string()), "DATABASE_ERROR"),
        (ServiceError::AuthenticationError("x".to_string()), "AUTHENTICATION_ERROR"),
        (ServiceError::AuthorizationError("x".to_string()), "AUTHORIZATION_ERROR"),
        (ServiceError::InternalServerError("x".to_string()), "INTERNAL_SERVER_ERROR"),
    ];
    for (err, code) in cases {
        assert_eq!(err.to_graphql_error().code, code);
    }
}

#[test]
fn storage_detail_is_redacted_at_the_boundary() {
    let err = ServiceError::DatabaseError("driver secret detail".to_string());
    let g = err.to_graphql_error();
    assert_eq!(g.message, "Database error occurred");

    let err = ServiceError::InternalServerError("stack trace".to_string());
    let g = err.to_graphql_error();
    assert_eq!(g.message, "Internal server error");
}

#[test]
fn client_facing_kinds_keep_their_detail() {
    let g = ServiceError::NotFound("user 7".to_string()).to_graphql_error();
    assert_eq!(g.message, "user 7");
    let g = ServiceError::InvalidId("zzz".to_string()).to_graphql_error();
    assert_eq!(g.message, "Invalid ID: zzz");
    let g = ServiceError::ValidationError("email must not be empty".to_string()).to_graphql_error();
    assert_eq!(g.message, "email must not be empty");
}

#[test]
fn service_side_message_keeps_detail() {
    assert_eq!(ServiceError::NotFound("u".to_string()).message(), "Not found: u");
    assert_eq!(ServiceError::InvalidId("z".to_string()).message(), "Invalid ID: z");
    assert_eq!(
        ServiceError::ValidationError("v".to_string()).message(),
        "Validation error: v"
    );
    assert_eq!(ServiceError::DatabaseError("d".to_string()).message(), "Database error: d");
    assert_eq!(
        ServiceError::AuthenticationError("a".to_string()).message(),
        "Authentication error: a"
    );
    assert_eq!(
        ServiceError::AuthorizationError("a".to_string()).message(),
        "Authorization error: a"
    );
    assert_eq!(
        ServiceError::InternalServerError("i".to_string()).message(),
        "Internal server error: i"
    );
}
