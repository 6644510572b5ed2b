use wol_gateway::addr::parse_hardware_addr;
use wol_gateway::addr::HardwareAddr;
use wol_gateway::addr::ParseError;

fn octets(a: &HardwareAddr) -> Vec<u8> {
    let mut v = Vec::new();
    for i in 0..6 {
        v.push(a.octet(i));
    }
    v
}

#[test]
fn parse_colon_lowercase() {
    let a = parse_hardware_addr("aa:bb:cc:dd:ee:ff").unwrap();
    assert_eq!(octets(&a), vec![0xaa, 0xbb, 0xcc, 0xdd, 0xee, 0xff]);
}

#[test]
fn parse_dash_uppercase_same_octets() {
    let a = parse_hardware_addr("AA-BB-CC-DD-EE-FF").unwrap();
    let b = parse_hardware_addr("aa:bb:cc:dd:ee:ff").unwrap();
    assert_eq!(a, b);
}

#[test]
fn parse_bare_digits() {
    let a = parse_hardware_addr("aabbccddeeff").unwrap();
    assert_eq!(octets(&a), vec![0xaa, 0xbb, 0xcc, 0xdd, 0xee, 0xff]);
}

#[test]
fn parse_mixed_case() {
    let a = parse_hardware_addr("Aa:bB:cC:Dd:EE:ff").unwrap();
    assert_eq!(octets(&a), vec![0xaa, 0xbb, 0xcc, 0xdd, 0xee, 0xff]);
}

#[test]
fn parse_distinct_octets() {
    let a = parse_hardware_addr("01:23:45:67:89:ab").unwrap();
    assert_eq!(octets(&a), vec![0x01, 0x23, 0x45, 0x67, 0x89, 0xab]);
}

#[test]
fn parse_wrong_length() {
    assert_eq!(parse_hardware_addr("aa:bb:cc:dd:ee"), Err(ParseError::WrongLength));
    assert_eq!(parse_hardware_addr(""), Err(ParseError::WrongLength));
    assert_eq!(parse_hardware_addr("aa:bb:cc:dd:ee:ff:00"), Err(ParseError::WrongLength));
}

#[test]
fn parse_mixed_separators_rejected() {
    assert_eq!(parse_hardware_addr("aa:bb-cc:dd:ee:ff"), Err(ParseError::InvalidSeparator));
    assert_eq!(parse_hardware_addr("aa-bb:cc-dd-ee-ff"), Err(ParseError::InvalidSeparator));
}

#[test]
fn parse_unknown_separator_rejected() {
    assert_eq!(parse_hardware_addr("aa.bb.cc.dd.ee.ff"), Err(ParseError::InvalidSeparator));
}

#[test]
fn parse_non_hex_rejected() {
    assert_eq!(parse_hardware_addr("gg:bb:cc:dd:ee:ff"), Err(ParseError::InvalidHexDigit));
    assert_eq!(parse_hardware_addr("aabbccddeefg"), Err(ParseError::InvalidHexDigit));
}

#[test]
fn canonical_text_is_lowercase_colon() {
    let a = HardwareAddr::new(0x00, 0x1a, 0x2b, 0x3c, 0x4d, 0xfe);
    assert_eq!(a.to_text(), "00:1a:2b:3c:4d:fe");
}

#[test]
fn round_trip_format_then_parse() {
    let a = parse_hardware_addr("AA-BB-CC-DD-EE-FF").unwrap();
    let text = a.to_text();
    assert_eq!(text, "aa:bb:cc:dd:ee:ff");
    let b = parse_hardware_addr(&text).unwrap();
    assert_eq!(a, b);
}

#[test]
fn parse_error_messages() {
    assert_eq!(
        ParseError::WrongLength.message(),
        "Hardware address must have exactly 12 hex digits"
    );
    assert_eq!(
        ParseError::InvalidHexDigit.message(),
        "Hardware address contains a non-hex character"
    );
    assert_eq!(
        ParseError::InvalidSeparator.message(),
        "Hardware address separators must be a consistent ':' or '-'"
    );
}
