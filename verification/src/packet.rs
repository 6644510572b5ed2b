//! Wake ("magic") datagram construction.
//!
//! The payload is a six-byte synchronization header of `0xFF`, the target
//! hardware address repeated sixteen times, and an optional trailing
//! "secure-on" password appended verbatim: 102 bytes bare, 106 with a
//! 4-octet password, 108 with a 6-octet one.

use crate::addr::HardwareAddr;
use vstd::prelude::*;

verus! {

/// The conventional default destination port (discard) for wake datagrams.
pub const DEFAULT_WAKE_PORT: u16 = 9;

/// An optional "secure-on" password, appended verbatim to the packet.
#[derive(Clone, Copy, Debug, PartialEq, Eq, Structural)]
pub enum SecureOnPassword {
    /// A 4-octet password value.
    Four(u8, u8, u8, u8),
    /// A password shaped like a hardware address (6 octets).
    Six(HardwareAddr),
}

/// The bytes a password contributes to the packet.
pub open spec fn password_bytes(p: SecureOnPassword) -> Seq<u8> {
    match p {
        SecureOnPassword::Four(a, b, c, d) => seq![a, b, c, d],
        SecureOnPassword::Six(h) => h@,
    }
}

/// `addr` repeated `n` times, end to end.
pub open spec fn repeated(addr: Seq<u8>, n: nat) -> Seq<u8>
    decreases n,
{
    if n == 0 {
        Seq::empty()
    } else {
        repeated(addr, (n - 1) as nat) + addr
    }
}

/// The wake datagram payload for `addr`: six `0xFF` bytes, `addr` sixteen
/// times, then the password bytes, if any.
pub open spec fn wake_packet_bytes(addr: Seq<u8>, password: Option<SecureOnPassword>) -> Seq<u8> {
    let base = Seq::new(6, |i: int| 0xffu8) + repeated(addr, 16);
    match password {
        None => base,
        Some(p) => base + password_bytes(p),
    }
}

/// The length of `n` repetitions of `addr`.
pub proof fn lemma_repeated_len(addr: Seq<u8>, n: nat)
    ensures
        repeated(addr, n).len() == n * addr.len(),
    decreases n,
{
    if n == 0 {
        assert(n * addr.len() == 0) by (nonlinear_arith)
            requires
                n == 0,
        ;
    } else {
        lemma_repeated_len(addr, (n - 1) as nat);
        assert(((n - 1) as nat) * addr.len() + addr.len() == n * addr.len()) by (nonlinear_arith)
            requires
                n >= 1,
        ;
    }
}

/// The exact packet sizes: 102 bytes with no password, 106 with a 4-octet
/// password, 108 with a 6-octet one.
pub proof fn lemma_wake_packet_len(addr: Seq<u8>, password: Option<SecureOnPassword>)
    requires
        addr.len() == 6,
    ensures
        password is None ==> wake_packet_bytes(addr, password).len() == 102,
        (password matches Some(p) && p matches SecureOnPassword::Four(..))
            ==> wake_packet_bytes(addr, password).len() == 106,
        (password matches Some(p) && p matches SecureOnPassword::Six(..)) ==> wake_packet_bytes(
            addr,
            password,
        ).len() == 108,
{
    lemma_repeated_len(addr, 16);
    match password {
        None => {},
        Some(SecureOnPassword::Four(..)) => {},
        Some(SecureOnPassword::Six(h)) => {
            h.lemma_view_len();
        },
    }
}

/// Builds the wake packet for `addr`, with the password, if one is given,
/// appended verbatim.
pub fn build_wake_packet(addr: &HardwareAddr, password: Option<SecureOnPassword>) -> (r: Vec<u8>)
    ensures
        r@ == wake_packet_bytes(addr@, password),
{
    proof {
        addr.lemma_view_len();
    }
    let mut out: Vec<u8> = Vec::new();
    let mut i: usize = 0;
    while i < 6
        invariant
            i <= 6,
            out@.len() == i,
            forall|m: int| 0 <= m < i ==> out@[m] == 0xffu8,
        decreases 6 - i,
    {
        out.push(0xff);
        i += 1;
    }
    proof {
        assert(out@ =~= Seq::new(6, |i: int| 0xffu8));
    }
    let ghost header = out@;
    let mut k: usize = 0;
    while k < 16
        invariant
            k <= 16,
            addr@.len() == 6,
            out@ == header + repeated(addr@, k as nat),
        decreases 16 - k,
    {
        let ghost before = out@;
        let mut j: usize = 0;
        while j < 6
            invariant
                j <= 6,
                addr@.len() == 6,
                out@ == before + addr@.subrange(0, j as int),
            decreases 6 - j,
        {
            out.push(addr.octet(j));
            proof {
                assert(out@ =~= before + addr@.subrange(0, j + 1));
            }
            j += 1;
        }
        proof {
            assert(out@ =~= before + addr@);
            assert(out@ =~= header + repeated(addr@, (k + 1) as nat));
        }
        k += 1;
    }
    match password {
        None => {},
        Some(SecureOnPassword::Four(a, b, c, d)) => {
            let ghost base = out@;
            out.push(a);
            out.push(b);
            out.push(c);
            out.push(d);
            proof {
                assert(out@ =~= base + password_bytes(SecureOnPassword::Four(a, b, c, d)));
            }
        },
        Some(SecureOnPassword::Six(h)) => {
            proof {
                h.lemma_view_len();
            }
            let ghost base = out@;
            let mut j: usize = 0;
            while j < 6
                invariant
                    j <= 6,
                    h@.len() == 6,
                    out@ == base + h@.subrange(0, j as int),
                decreases 6 - j,
            {
                out.push(h.octet(j));
                proof {
                    assert(out@ =~= base + h@.subrange(0, j + 1));
                }
                j += 1;
            }
            proof {
                assert(out@ =~= base + h@);
            }
        },
    }
    proof {
        assert(out@ =~= wake_packet_bytes(addr@, password));
    }
    out
}

/// The dispatch plan of one wake call: the datagram payload, and the
/// destination port — the caller's choice, or the default discard port.
pub fn wake_datagram(
    addr: &HardwareAddr,
    password: Option<SecureOnPassword>,
    dest_port: Option<u16>,
) -> (r: (Vec<u8>, u16))
    ensures
        r.0@ == wake_packet_bytes(addr@, password),
        dest_port matches Some(p) ==> r.1 == p,
        dest_port is None ==> r.1 == DEFAULT_WAKE_PORT,
{
    let packet = build_wake_packet(addr, password);
    let port = match dest_port {
        Some(p) => p,
        None => DEFAULT_WAKE_PORT,
    };
    (packet, port)
}

} // verus!
