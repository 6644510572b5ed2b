//! The wake trigger: the decision the gateway takes for one "wake device X"
//! request, and the plain-text response bodies.
//!
//! The caller performs the two pieces of I/O around this decision — it
//! receives the HTTP request and, for a registered device, transmits the
//! returned datagram as one UDP broadcast — and picks the HTTP status from
//! the outcome: 200 for a dispatched wake, 404 for an unknown device, 500
//! (with [`send_failure_body`]) when the send itself failed.

use crate::addr::canonical_addr_text;
use crate::packet::build_wake_packet;
use crate::packet::wake_packet_bytes;
use crate::packet::DEFAULT_WAKE_PORT;
use crate::registry::DeviceRegistry;
use vstd::prelude::*;
use vstd::string::StringExecFns;

verus! {

/// The response body announcing a dispatched wake.
pub open spec fn success_body_text(name: Seq<char>, addr_text: Seq<char>) -> Seq<char> {
    "Waking up device: "@ + name + " (Mac Address: "@ + addr_text + ")"@
}

/// The response body for a device the registry does not know.
pub open spec fn not_found_body_text(name: Seq<char>) -> Seq<char> {
    "No such device: "@ + name
}

/// The response body for a wake datagram that could not be handed to the
/// transport layer.
pub open spec fn send_failure_body_text(cause: Seq<char>) -> Seq<char> {
    "Failed to send WOL packet: "@ + cause
}

/// Builds the success body naming the device and its address text.
pub fn success_body(name: &str, addr_text: &str) -> (r: String)
    ensures
        r@ == success_body_text(name@, addr_text@),
{
    let mut out = "Waking up device: ".to_owned();
    out.append(name);
    out.append(" (Mac Address: ");
    out.append(addr_text);
    out.append(")");
    proof {
        assert(out@ =~= success_body_text(name@, addr_text@));
    }
    out
}

/// Builds the body for an unknown device.
pub fn not_found_body(name: &str) -> (r: String)
    ensures
        r@ == not_found_body_text(name@),
{
    let mut out = "No such device: ".to_owned();
    out.append(name);
    proof {
        assert(out@ =~= not_found_body_text(name@));
    }
    out
}

/// Builds the body for a failed send, naming the underlying cause.
pub fn send_failure_body(cause: &str) -> (r: String)
    ensures
        r@ == send_failure_body_text(cause@),
{
    let mut out = "Failed to send WOL packet: ".to_owned();
    out.append(cause);
    proof {
        assert(out@ =~= send_failure_body_text(cause@));
    }
    out
}

/// What the gateway decides for one trigger request.
pub enum TriggerOutcome {
    /// The device is registered: transmit `packet` as one UDP broadcast
    /// datagram to `port`, and answer with `body` once it is handed to the
    /// transport layer.
    Wake { packet: Vec<u8>, port: u16, body: String },
    /// The registry knows no such device: answer `body`; nothing is sent.
    NotFound { body: String },
}

impl TriggerOutcome {
    /// The HTTP status the outcome calls for, presuming a found device's
    /// datagram is handed to the transport layer successfully.
    pub fn status_code(&self) -> (r: u16)
        ensures
            (*self matches TriggerOutcome::Wake { .. }) ==> r == 200,
            (*self matches TriggerOutcome::NotFound { .. }) ==> r == 404,
    {
        match self {
            TriggerOutcome::Wake { .. } => 200,
            TriggerOutcome::NotFound { .. } => 404,
        }
    }
}

/// Decides one trigger request: resolves `device_name` in the registry and,
/// for a registered device, builds the wake datagram (no password, default
/// destination port) together with the success body naming the device and
/// the canonical text of its address; for any other name, the not-found
/// body, with nothing to send.
pub fn handle_wake_trigger(registry: &DeviceRegistry, device_name: &str) -> (r: TriggerOutcome)
    ensures
        registry@.contains_key(device_name@) ==> (r matches TriggerOutcome::Wake {
            packet,
            port,
            body,
        } && packet@ == wake_packet_bytes(registry@[device_name@], None) && port
            == DEFAULT_WAKE_PORT && body@ == success_body_text(
            device_name@,
            canonical_addr_text(registry@[device_name@]),
        )),
        !registry@.contains_key(device_name@) ==> (r matches TriggerOutcome::NotFound { body }
            && body@ == not_found_body_text(device_name@)),
{
    match registry.lookup(device_name) {
        Ok(addr) => {
            let text = addr.to_text();
            let body = success_body(device_name, text.as_str());
            let packet = build_wake_packet(&addr, None);
            TriggerOutcome::Wake { packet, port: DEFAULT_WAKE_PORT, body }
        },
        Err(_) => TriggerOutcome::NotFound { body: not_found_body(device_name) },
    }
}

} // verus!
