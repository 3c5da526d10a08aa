use findex::database::{
    create_tag, delete_tag, get_tags, get_tags_hierarchically, placeholders, register_file,
    search_files_by_tags, tag_file, tag_rows_outcome, update_tag,
};
use findex::errors::{ApiError, Error};

#[test]
fn tag_rows_outcome_reports_missing_tags() {
    match tag_rows_outcome(0, 42) {
        Err(ApiError::NotFound(m)) => assert_eq!(m, "Tag with ID 42 not found"),
        _ => panic!("expected a not-found error"),
    }
    assert!(tag_rows_outcome(3, 42).is_ok());
    match tag_rows_outcome(0, -7) {
        Err(ApiError::NotFound(m)) => assert_eq!(m, "Tag with ID -7 not found"),
        _ => panic!("expected a not-found error"),
    }
}

#[test]
fn placeholders_join_question_marks() {
    assert_eq!(placeholders(0), "");
    assert_eq!(placeholders(1), "?");
    assert_eq!(placeholders(3), "?,?,?");
}

#[test]
fn api_error_messages_carry_their_prefix() {
    assert_eq!(
        ApiError::ConnectionError("boom".to_string()).message(),
        "Database connection error: boom"
    );
    assert_eq!(
        ApiError::QueryError("boom".to_string()).message(),
        "Database query failed: boom"
    );
    assert_eq!(
        ApiError::NotFound("tag".to_string()).message(),
        "Resource not found: tag"
    );
    assert_eq!(
        ApiError::InvalidInput("bad".to_string()).message(),
        "Invalid input: bad"
    );
    assert_eq!(
        ApiError::Unexpected("odd".to_string()).message(),
        "Unexpected error: odd"
    );
}

#[test]
fn error_messages_pass_the_payload_through() {
    assert_eq!(Error::Io("gone".to_string()).message(), "gone");
    assert_eq!(Error::Custom("odd".to_string()).message(), "odd");
}

#[test]
fn tag_calls_report_a_missing_database_as_connection_errors() {
    match create_tag("work".to_string(), None) {
        Err(ApiError::ConnectionError(_)) => {},
        _ => panic!("expected a connection error"),
    }
    match get_tags() {
        Err(ApiError::ConnectionError(_)) => {},
        _ => panic!("expected a connection error"),
    }
    match get_tags_hierarchically() {
        Err(ApiError::ConnectionError(_)) => {},
        _ => panic!("expected a connection error"),
    }
    match update_tag(1, "new".to_string(), Some(2)) {
        Err(ApiError::ConnectionError(_)) => {},
        _ => panic!("expected a connection error"),
    }
    match delete_tag(1) {
        Err(ApiError::ConnectionError(_)) => {},
        _ => panic!("expected a connection error"),
    }
}

#[test]
fn file_calls_report_a_missing_database_as_text() {
    let registered = register_file("a".to_string(), "C:/a".to_string());
    match registered {
        Err(m) => assert!(m.starts_with("Database connection error: ")),
        Ok(_) => panic!("expected an error"),
    }
    let tagged = tag_file("a".to_string(), "C:/a".to_string(), vec![1, 2]);
    match tagged {
        Err(m) => assert!(m.starts_with("Database connection error: ")),
        Ok(_) => panic!("expected an error"),
    }
    let found = search_files_by_tags(vec![1, 2]);
    match found {
        Err(m) => assert!(m.starts_with("Database connection error: ")),
        Ok(_) => panic!("expected an error"),
    }
}
