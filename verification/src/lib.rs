//! Verified core of a Wake-on-LAN gateway.
//!
//! The library turns untrusted textual configuration into a validated
//! name-to-hardware-address registry, and builds the standards-defined wake
//! ("magic") datagram payload for a resolved address. All I/O — the HTTP
//! trigger endpoint, reading the configuration file, and the UDP broadcast
//! send — lives outside this crate and only hands plain values in and out.

pub mod addr;
pub mod device_name;
pub mod packet;
pub mod registry;
pub mod trigger;
