use procmap::error::{AppError, ERROR_ACCESS_DENIED};

fn wide(text: &str) -> Vec<u16> {
    text.encode_utf16().collect()
}

#[test]
fn last_api_error_is_a_failed_query() {
    assert_eq!(AppError::last_api_error(299), AppError::QueryFailed { code: 299 });
}

#[test]
fn a_refused_open_is_access_denied() {
    assert_eq!(ERROR_ACCESS_DENIED, 5);
    assert_eq!(AppError::from_open_failure(5), AppError::AccessDenied { code: 5 });
}

#[test]
fn any_other_failed_open_is_not_found() {
    assert_eq!(AppError::from_open_failure(87), AppError::NotFound { code: 87 });
    assert_eq!(AppError::from_open_failure(0), AppError::NotFound { code: 0 });
    assert_eq!(AppError::from_open_failure(6), AppError::NotFound { code: 6 });
}

#[test]
fn every_system_error_keeps_its_code() {
    assert_eq!(AppError::ResourceUnavailable { code: 1 }.code(), Some(1));
    assert_eq!(AppError::AccessDenied { code: 5 }.code(), Some(5));
    assert_eq!(AppError::NotFound { code: 87 }.code(), Some(87));
    assert_eq!(AppError::ModuleNotFound { code: 18 }.code(), Some(18));
    assert_eq!(AppError::QueryFailed { code: 299 }.code(), Some(299));
}

#[test]
fn an_aggregate_error_keeps_no_code() {
    assert_eq!(AppError::Aggregate { failed: 3 }.code(), None);
}

#[test]
fn message_is_the_text_of_the_system() {
    let text: Vec<u16> = wide("Access is denied.\r\n");
    assert_eq!(AppError::message(&text), "Access is denied.\r\n");
}

#[test]
fn message_without_text_is_unknown_error() {
    let text: Vec<u16> = Vec::new();
    assert_eq!(AppError::message(&text), "unknown error");
}

#[test]
fn message_of_broken_text_is_unknown_error() {
    let text: Vec<u16> = vec![0x0041, 0xDC00];
    assert_eq!(AppError::message(&text), "unknown error");
}
