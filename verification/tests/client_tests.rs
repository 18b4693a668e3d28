use freemobile_api::{Credentials, FreeMobileClient, FreeMobileError};

#[test]
fn test_credentials_validation() {
    let valid_creds = Credentials::new("12345678".to_string(), "abcdef123".to_string());
    assert!(valid_creds.is_valid());

    let invalid_creds = Credentials::new("".to_string(), "abcdef123".to_string());
    assert!(!invalid_creds.is_valid());
}

#[test]
fn test_client_creation() {
    let valid_creds = Credentials::new("12345678".to_string(), "abcdef123".to_string());
    let client = FreeMobileClient::new(valid_creds);
    assert!(client.is_ok());

    let invalid_creds = Credentials::new("".to_string(), "abcdef123".to_string());
    let client = FreeMobileClient::new(invalid_creds);
    assert!(client.is_err());
}

#[test]
fn test_sanitization_integration() {
    let creds = Credentials::new("user".to_string(), "pass".to_string());
    let client = FreeMobileClient::new(creds).unwrap();

    let test_message = "Test ✅ supported 😀 unsupported";
    let sanitized = client.sanitize_message(test_message);
    assert_eq!(sanitized, "Test ✅ supported [] unsupported");
}

#[test]
fn test_prepare_message_empty() {
    let creds = Credentials::new("user".to_string(), "pass".to_string());
    let client = FreeMobileClient::new(creds).unwrap();

    let result = client.prepare_message("   \n  ");
    assert!(matches!(result, Err(FreeMobileError::EmptyMessage)));
}

#[test]
fn test_prepare_message_short() {
    let creds = Credentials::new("user".to_string(), "pass".to_string());
    let client = FreeMobileClient::new(creds).unwrap();

    let chunks = client.prepare_message("Hello 😀 world").unwrap();
    assert_eq!(chunks, vec!["Hello [] world".to_string()]);
}

#[test]
fn test_prepare_message_long() {
    let creds = Credentials::new("user".to_string(), "pass".to_string());
    let client = FreeMobileClient::new(creds).unwrap();

    let message = "word ".repeat(400);
    let chunks = client.prepare_message(&message).unwrap();
    assert!(chunks.len() > 1);
    assert!(chunks[0].starts_with("[1/"));
    assert!(chunks[chunks.len() - 1].starts_with(&format!("[{}/", chunks.len())));
}

#[test]
fn test_mask_user_id() {
    assert_eq!(freemobile_api::mask_user_id("12345678"), "1234****");
    assert_eq!(freemobile_api::mask_user_id("123"), "****");
    assert_eq!(freemobile_api::mask_user_id(""), "****");
}
