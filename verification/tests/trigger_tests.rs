use wol_gateway::registry::build_registry;
use wol_gateway::trigger::handle_wake_trigger;
use wol_gateway::trigger::send_failure_body;
use wol_gateway::trigger::TriggerOutcome;

fn bedroom_registry() -> wol_gateway::registry::DeviceRegistry {
    build_registry(&vec![("bedroom_pc".to_string(), "aa:bb:cc:dd:ee:ff".to_string())]).unwrap()
}

fn expected_packet() -> Vec<u8> {
    let mut v = vec![0xffu8; 6];
    for _ in 0..16 {
        v.extend_from_slice(&[0xaa, 0xbb, 0xcc, 0xdd, 0xee, 0xff]);
    }
    v
}

#[test]
fn known_device_wakes_with_packet_port_and_body() {
    let reg = bedroom_registry();
    let outcome = handle_wake_trigger(&reg, "bedroom_pc");
    assert_eq!(outcome.status_code(), 200);
    match outcome {
        TriggerOutcome::Wake { packet, port, body } => {
            assert_eq!(packet.len(), 102);
            assert_eq!(packet, expected_packet());
            assert_eq!(port, 9);
            assert_eq!(body, "Waking up device: bedroom_pc (Mac Address: aa:bb:cc:dd:ee:ff)");
        },
        TriggerOutcome::NotFound { body } => panic!("unexpected not-found: {body}"),
    }
}

#[test]
fn unknown_device_sends_nothing() {
    let reg = bedroom_registry();
    let outcome = handle_wake_trigger(&reg, "unknown_device");
    assert_eq!(outcome.status_code(), 404);
    match outcome {
        TriggerOutcome::Wake { .. } => panic!("unexpected wake for unknown device"),
        TriggerOutcome::NotFound { body } => {
            assert_eq!(body, "No such device: unknown_device");
        },
    }
}

#[test]
fn send_failure_body_names_cause() {
    assert_eq!(
        send_failure_body("Network is unreachable"),
        "Failed to send WOL packet: Network is unreachable"
    );
}
