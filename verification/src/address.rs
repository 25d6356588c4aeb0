//! Socket addresses as plain values.

use vstd::prelude::*;

verus! {

/// An IP address, held as the integer its octets spell in network order.
#[derive(Clone, Copy, Debug, PartialEq, Eq, Structural)]
pub enum IpAddress {
    /// An IPv4 address: `a.b.c.d` is `(a << 24) | (b << 16) | (c << 8) | d`.
    V4(u32),
    /// An IPv6 address, its eight groups from the most significant down.
    V6(u128),
}

/// The address of one end of a connection.
#[derive(Clone, Copy, Debug, PartialEq, Eq, Structural)]
pub struct SocketAddress {
    pub ip: IpAddress,
    pub port: u16,
}

impl SocketAddress {
    /// The address `127.0.0.1:80`.
    pub open spec fn local_http() -> SocketAddress {
        SocketAddress { ip: IpAddress::V4(0x7f00_0001u32), port: 80u16 }
    }

    /// An IPv4 address from its four octets and a port.
    pub open spec fn spec_v4(a: u8, b: u8, c: u8, d: u8, port: u16) -> SocketAddress {
        SocketAddress {
            ip: IpAddress::V4((a as u32 * 0x100_0000 + b as u32 * 0x1_0000 + c as u32 * 0x100 + d as u32) as u32),
            port,
        }
    }

    /// An IPv4 address from its four octets and a port.
    pub fn v4(a: u8, b: u8, c: u8, d: u8, port: u16) -> (addr: SocketAddress)
        ensures
            addr == Self::spec_v4(a, b, c, d, port),
    {
        let hi: u32 = a as u32 * 0x100_0000u32 + b as u32 * 0x1_0000u32;
        let lo: u32 = c as u32 * 0x100u32 + d as u32;
        SocketAddress { ip: IpAddress::V4(hi + lo), port }
    }
}

} // verus!
