//! Network addresses of connected peers, as plain values.

use vstd::prelude::*;

verus! {

/// The address a peer connected from: an IPv4 or IPv6 socket address.
///
/// Two addresses are equal exactly when they are of the same family and all
/// their fields are equal, as for socket addresses.
#[derive(Debug, Clone, Copy, PartialEq, Eq, Structural, Hash)]
pub enum PeerAddr {
    /// IPv4 address (the four octets, most significant first) and port.
    V4 { ip: u32, port: u16 },
    /// IPv6 address (the sixteen octets, most significant first), port,
    /// flow information and scope identifier.
    V6 { ip: u128, port: u16, flowinfo: u32, scope_id: u32 },
}

impl PeerAddr {
    /// The IPv4 address `a.b.c.d:port`.
    pub fn v4(a: u8, b: u8, c: u8, d: u8, port: u16) -> (r: PeerAddr)
        ensures
            r == (PeerAddr::V4 { ip: (a * 0x100_0000 + b * 0x1_0000 + c * 0x100 + d) as u32, port }),
    {
        let ip: u32 = a as u32 * 0x100_0000 + b as u32 * 0x1_0000 + c as u32 * 0x100 + d as u32;
        PeerAddr::V4 { ip, port }
    }

    /// The unspecified IPv4 address with port 0 (`0.0.0.0:0`).
    pub fn unspecified() -> (r: PeerAddr)
        ensures
            r == (PeerAddr::V4 { ip: 0, port: 0 }),
    {
        PeerAddr::V4 { ip: 0, port: 0 }
    }
}

} // verus!
