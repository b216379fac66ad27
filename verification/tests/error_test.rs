use rsocket_rust::error::{RSocketError, ERR_APPLICATION, ERR_CANCELED, ERR_INVALID_SETUP};

#[test]
fn errors_from_codes() {
    assert!(matches!(
        RSocketError::must_new_from_code(ERR_APPLICATION, "a".to_string()),
        RSocketError::ApplicationException(_)
    ));
    assert!(matches!(
        RSocketError::must_new_from_code(ERR_INVALID_SETUP, "a".to_string()),
        RSocketError::InvalidSetup(_)
    ));
    assert!(matches!(
        RSocketError::must_new_from_code(ERR_CANCELED, "a".to_string()),
        RSocketError::RequestCancelled(_)
    ));
    assert!(matches!(
        RSocketError::must_new_from_code(0x1234, "a".to_string()),
        RSocketError::Reserved(0x1234, _)
    ));
}

#[test]
fn error_texts() {
    assert_eq!(
        RSocketError::ApplicationException("boom".to_string()).to_string(),
        "APPLICATION_ERROR: boom"
    );
    assert_eq!(
        RSocketError::RejectedResume("r".to_string()).to_string(),
        "REJECTED_SETUP: r"
    );
    assert_eq!(
        RSocketError::Reserved(4660, "x".to_string()).to_string(),
        "RESERVED(4660): x"
    );
    assert_eq!(RSocketError::InCompleteFrame.to_string(), "this frame is incomplete");
    assert_eq!(RSocketError::WithDescription("plain".to_string()).to_string(), "plain");
}
