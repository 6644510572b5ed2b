use wol_gateway::addr::ParseError;
use wol_gateway::device_name::ValidationError;
use wol_gateway::registry::build_registry;
use wol_gateway::registry::ConfigCause;
use wol_gateway::registry::NotFoundError;

fn entries(pairs: &[(&str, &str)]) -> Vec<(String, String)> {
    pairs.iter().map(|(n, a)| (n.to_string(), a.to_string())).collect()
}

#[test]
fn build_then_lookup_returns_the_address() {
    let reg = build_registry(&entries(&[
        ("bedroom_pc", "aa:bb:cc:dd:ee:ff"),
        ("desk", "01-02-03-04-05-06"),
    ]))
    .unwrap();
    let a = reg.lookup("bedroom_pc").unwrap();
    assert_eq!(a.to_text(), "aa:bb:cc:dd:ee:ff");
    let b = reg.lookup("desk").unwrap();
    assert_eq!(b.to_text(), "01:02:03:04:05:06");
}

#[test]
fn lookup_unknown_name_fails() {
    let reg = build_registry(&entries(&[("bedroom_pc", "aa:bb:cc:dd:ee:ff")])).unwrap();
    assert_eq!(reg.lookup("unknown_device"), Err(NotFoundError));
    assert_eq!(reg.lookup(""), Err(NotFoundError));
}

#[test]
fn empty_configuration_builds_empty_registry() {
    let reg = build_registry(&entries(&[])).unwrap();
    assert_eq!(reg.lookup("anything"), Err(NotFoundError));
}

#[test]
fn invalid_name_aborts_construction() {
    let err = build_registry(&entries(&[
        ("ok_device", "aa:bb:cc:dd:ee:ff"),
        ("Bedroom-PC", "aa:bb:cc:dd:ee:ff"),
    ]))
    .unwrap_err();
    assert_eq!(err.device, "Bedroom-PC");
    assert_eq!(err.cause, ConfigCause::Name(ValidationError::InvalidCharacter));
}

#[test]
fn first_failure_is_reported() {
    let err = build_registry(&entries(&[
        ("ok_device", "aa:bb:cc:dd:ee:ff"),
        ("", "aa:bb:cc:dd:ee:ff"),
        ("Also-Bad", "zz"),
    ]))
    .unwrap_err();
    assert_eq!(err.device, "");
    assert_eq!(err.cause, ConfigCause::Name(ValidationError::EmptyName));
}

#[test]
fn invalid_address_aborts_construction() {
    let err = build_registry(&entries(&[("pc", "zz:bb:cc:dd:ee:ff")])).unwrap_err();
    assert_eq!(err.device, "pc");
    assert_eq!(err.cause, ConfigCause::Address(ParseError::InvalidHexDigit));
}

#[test]
fn duplicate_name_rejected() {
    let err = build_registry(&entries(&[
        ("pc", "aa:bb:cc:dd:ee:ff"),
        ("pc", "01:02:03:04:05:06"),
    ]))
    .unwrap_err();
    assert_eq!(err.device, "pc");
    assert_eq!(err.cause, ConfigCause::DuplicateName);
}

#[test]
fn config_error_message_names_device_and_cause() {
    let err = build_registry(&entries(&[("Bedroom-PC", "aa:bb:cc:dd:ee:ff")])).unwrap_err();
    assert_eq!(
        err.message(),
        "Invalid configuration for device Bedroom-PC: \
         Device name must be lowercase alphanumeric or underscore"
    );
}
