use wol_gateway::addr::parse_hardware_addr;
use wol_gateway::addr::HardwareAddr;
use wol_gateway::packet::build_wake_packet;
use wol_gateway::packet::wake_datagram;
use wol_gateway::packet::SecureOnPassword;
use wol_gateway::packet::DEFAULT_WAKE_PORT;

fn expected_base(octets: [u8; 6]) -> Vec<u8> {
    let mut v = vec![0xffu8; 6];
    for _ in 0..16 {
        v.extend_from_slice(&octets);
    }
    v
}

#[test]
fn packet_without_password_is_102_bytes() {
    let a = parse_hardware_addr("AA:BB:CC:DD:EE:FF").unwrap();
    let p = build_wake_packet(&a, None);
    assert_eq!(p.len(), 102);
    assert_eq!(p, expected_base([0xaa, 0xbb, 0xcc, 0xdd, 0xee, 0xff]));
}

#[test]
fn packet_header_and_repetitions() {
    let a = HardwareAddr::new(1, 2, 3, 4, 5, 6);
    let p = build_wake_packet(&a, None);
    assert!(p[..6].iter().all(|&b| b == 0xff));
    for k in 0..16 {
        assert_eq!(&p[6 + 6 * k..6 + 6 * (k + 1)], &[1, 2, 3, 4, 5, 6]);
    }
}

#[test]
fn four_byte_password_appended() {
    let a = parse_hardware_addr("AA:BB:CC:DD:EE:FF").unwrap();
    let p = build_wake_packet(&a, Some(SecureOnPassword::Four(0x01, 0x02, 0x03, 0x04)));
    assert_eq!(p.len(), 106);
    assert_eq!(&p[..102], &expected_base([0xaa, 0xbb, 0xcc, 0xdd, 0xee, 0xff])[..]);
    assert_eq!(&p[102..], &[0x01, 0x02, 0x03, 0x04]);
}

#[test]
fn six_byte_password_appended() {
    let a = parse_hardware_addr("AA:BB:CC:DD:EE:FF").unwrap();
    let pw = HardwareAddr::new(9, 8, 7, 6, 5, 4);
    let p = build_wake_packet(&a, Some(SecureOnPassword::Six(pw)));
    assert_eq!(p.len(), 108);
    assert_eq!(&p[..102], &expected_base([0xaa, 0xbb, 0xcc, 0xdd, 0xee, 0xff])[..]);
    assert_eq!(&p[102..], &[9, 8, 7, 6, 5, 4]);
}

#[test]
fn datagram_uses_default_port() {
    let a = HardwareAddr::new(1, 2, 3, 4, 5, 6);
    let (packet, port) = wake_datagram(&a, None, None);
    assert_eq!(port, 9);
    assert_eq!(port, DEFAULT_WAKE_PORT);
    assert_eq!(packet, build_wake_packet(&a, None));
}

#[test]
fn datagram_port_overridable() {
    let a = HardwareAddr::new(1, 2, 3, 4, 5, 6);
    let (_, port) = wake_datagram(&a, None, Some(7));
    assert_eq!(port, 7);
}
