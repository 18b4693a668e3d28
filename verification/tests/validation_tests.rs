use freemobile_api::constants::{
    STATUS_ACCESS_DENIED, STATUS_INVALID_CREDENTIALS, STATUS_SERVER_ERROR,
    STATUS_TOO_MANY_REQUESTS,
};
use freemobile_api::{Config, FreeMobileError, InputHandler};

#[test]
fn test_validate_user_id_function() {
    assert!(Config::validate_user_id("12345678").is_ok());
    assert!(Config::validate_user_id("1234567").is_err()); // too short
    assert!(Config::validate_user_id("123456789").is_err()); // too long
    assert!(Config::validate_user_id("1234567a").is_err()); // contains letter
    assert!(Config::validate_user_id("").is_err()); // empty
}

#[test]
fn test_validate_message() {
    assert!(InputHandler::validate_message("Valid message").is_ok());
    assert!(InputHandler::validate_message("").is_err());
    assert!(InputHandler::validate_message("   ").is_err());

    // Maximum length boundary
    let valid_message = "a".repeat(5000);
    assert!(InputHandler::validate_message(&valid_message).is_ok());

    let too_long_message = "a".repeat(5001);
    assert!(InputHandler::validate_message(&too_long_message).is_err());
}

#[test]
fn test_validate_message_error_kinds() {
    assert!(matches!(
        InputHandler::validate_message("  \n "),
        Err(FreeMobileError::EmptyMessage)
    ));
    let too_long_message = "a".repeat(5001);
    assert!(matches!(
        InputHandler::validate_message(&too_long_message),
        Err(FreeMobileError::InvalidMessage(_))
    ));
    assert!(matches!(
        Config::validate_user_id("abc"),
        Err(FreeMobileError::ConfigError(_))
    ));
}

#[test]
fn test_status_code_classification() {
    assert!(matches!(
        FreeMobileError::from_status_code(STATUS_INVALID_CREDENTIALS),
        FreeMobileError::InvalidCredentials
    ));
    assert!(matches!(
        FreeMobileError::from_status_code(STATUS_TOO_MANY_REQUESTS),
        FreeMobileError::TooManyRequests
    ));
    assert!(matches!(
        FreeMobileError::from_status_code(STATUS_ACCESS_DENIED),
        FreeMobileError::AccessDenied
    ));
    assert!(matches!(
        FreeMobileError::from_status_code(STATUS_SERVER_ERROR),
        FreeMobileError::ServerError
    ));
    assert!(matches!(
        FreeMobileError::from_status_code(404),
        FreeMobileError::Unknown
    ));
    assert!(matches!(
        FreeMobileError::from_status_code(200),
        FreeMobileError::Unknown
    ));
}

#[test]
fn test_error_descriptions() {
    assert_eq!(
        FreeMobileError::InvalidCredentials.describe(),
        "Invalid credentials provided"
    );
    assert_eq!(
        FreeMobileError::TooManyRequests.describe(),
        "Too many requests sent (rate limit exceeded)"
    );
    assert_eq!(
        FreeMobileError::EmptyMessage.describe(),
        "Message is empty"
    );
    assert_eq!(
        FreeMobileError::ConfigError("bad".to_string()).describe(),
        "Configuration error: bad"
    );
    assert_eq!(
        FreeMobileError::Unknown.describe(),
        "Unknown error occurred"
    );
}

#[test]
fn test_preview_text() {
    assert_eq!(InputHandler::preview_text("Test message"), "Test message");

    let long_message = "a".repeat(150);
    let preview = InputHandler::preview_text(&long_message);
    assert_eq!(preview, "a".repeat(100));
}
