use pos_backend::errors::ServiceError;
use pos_backend::services::error_handler::{handle_db_error, kind_of, DbErrorKind};

fn all() -> Vec<ServiceError> {
    vec![
        ServiceError::InternalServerError,
        ServiceError::BadRequest("no body".to_string()),
        ServiceError::Unauthorized,
        ServiceError::DatabaseConnectionError,
        ServiceError::DatabaseError("relation missing".to_string()),
        ServiceError::ValidationError("No items in cart".to_string()),
        ServiceError::NotFound,
    ]
}

#[test]
fn error_messages() {
    let texts: Vec<String> = all().iter().map(|e| e.message()).collect();
    assert_eq!(
        texts,
        vec![
            "Internal server error",
            "Bad request: no body",
            "Unauthorized",
            "Could not connect to database",
            "Database error: relation missing",
            "Validation error: No items in cart",
            "Resource not found",
        ]
    );
}

#[test]
fn error_status_codes() {
    let codes: Vec<u16> = all().iter().map(|e| e.status_code()).collect();
    assert_eq!(codes, vec![500, 400, 401, 503, 500, 400, 404]);
}

#[test]
fn error_replies_hide_what_the_database_said() {
    let replies: Vec<(String, String)> = all()
        .iter()
        .map(|e| {
            let r = e.error_response();
            assert_eq!(r.status, "error");
            (r.message, r.error_code.unwrap())
        })
        .collect();
    let expected = vec![
        ("Internal server error", "internal_server_error"),
        ("no body", "bad_request"),
        ("Unauthorized", "unauthorized"),
        ("Database service is currently unavailable", "database_unavailable"),
        ("An error occurred while processing your request", "database_error"),
        ("No items in cart", "validation_error"),
        ("Resource not found", "not_found"),
    ];
    assert_eq!(replies.len(), expected.len());
    for (got, want) in replies.iter().zip(expected.iter()) {
        assert_eq!(got.0, want.0);
        assert_eq!(got.1, want.1);
    }
}

#[test]
fn database_failures_are_told_apart() {
    assert_eq!(kind_of("relation \"users\" already exists"), DbErrorKind::AlreadySatisfied);
    assert_eq!(kind_of("duplicate key value violates unique constraint"), DbErrorKind::AlreadySatisfied);
    assert_eq!(kind_of("violates foreign key constraint \"fk\""), DbErrorKind::ForeignKey);
    assert_eq!(kind_of("syntax error at or near \"FROM\""), DbErrorKind::Syntax);
    assert_eq!(kind_of("connection reset"), DbErrorKind::Other);
    assert_eq!(kind_of(""), DbErrorKind::Other);
    assert_eq!(kind_of("syntax error: duplicate key"), DbErrorKind::AlreadySatisfied);
    assert_eq!(kind_of("Already Exists"), DbErrorKind::Other);
}

#[test]
fn database_failures_are_worded_for_the_caller() {
    assert_eq!(
        handle_db_error("type already exists"),
        (false, "Constraint already satisfied: type already exists".to_string())
    );
    assert_eq!(
        handle_db_error("violates foreign key constraint"),
        (true, "Foreign key constraint violation: violates foreign key constraint".to_string())
    );
    assert_eq!(handle_db_error("syntax error"), (true, "SQL syntax error: syntax error".to_string()));
    assert_eq!(handle_db_error("timeout"), (true, "Database operation failed: timeout".to_string()));
}
