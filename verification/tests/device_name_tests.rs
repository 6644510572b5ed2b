use wol_gateway::device_name::validate_device_name;
use wol_gateway::device_name::ValidationError;

#[test]
fn valid_names_accepted() {
    assert_eq!(validate_device_name("bedroom_pc"), Ok(()));
    assert_eq!(validate_device_name("abc123"), Ok(()));
    assert_eq!(validate_device_name("_"), Ok(()));
    assert_eq!(validate_device_name("42"), Ok(()));
}

#[test]
fn empty_name_rejected() {
    assert_eq!(validate_device_name(""), Err(ValidationError::EmptyName));
}

#[test]
fn uppercase_rejected() {
    assert_eq!(validate_device_name("Bedroom"), Err(ValidationError::InvalidCharacter));
}

#[test]
fn punctuation_and_whitespace_rejected() {
    assert_eq!(validate_device_name("a-b"), Err(ValidationError::InvalidCharacter));
    assert_eq!(validate_device_name("a b"), Err(ValidationError::InvalidCharacter));
    assert_eq!(validate_device_name("a.b"), Err(ValidationError::InvalidCharacter));
}

#[test]
fn non_ascii_rejected() {
    assert_eq!(validate_device_name("caf\u{e9}"), Err(ValidationError::InvalidCharacter));
}

#[test]
fn validation_error_messages() {
    assert_eq!(ValidationError::EmptyName.message(), "Device name cannot be empty");
    assert_eq!(
        ValidationError::InvalidCharacter.message(),
        "Device name must be lowercase alphanumeric or underscore"
    );
}
