use vstd::prelude::*;

use crate::private_key::PRIVATE_KEY_BYTES;

verus! {

/// Identity of a peer on the network, held as the 64-bit form that the
/// networking layer gives it (`to_bits`).
#[derive(Clone, Copy, Debug, PartialEq, Eq, Structural)]
pub struct PeerId {
    pub bits: u64,
}

/// An IP address, version 4 or 6.
#[derive(Clone, Copy, Debug, PartialEq, Eq)]
pub enum IpAddress {
    V4([u8; 4]),
    V6([u16; 8]),
}

/// An IP address and a port.
#[derive(Clone, Copy, Debug, PartialEq, Eq)]
pub struct SocketAddress {
    pub ip: IpAddress,
    pub port: u16,
}

/// The IPv4 address that listens on every interface, `0.0.0.0`.
pub open spec fn unspecified_v4() -> IpAddress {
    IpAddress::V4([0u8, 0u8, 0u8, 0u8])
}

impl SocketAddress {
    /// The address `0.0.0.0:port`, on which a client or server listens.
    pub fn any_interface(port: u16) -> (addr: SocketAddress)
        ensures
            addr.ip == unspecified_v4(),
            addr.port == port,
    {
        SocketAddress { ip: IpAddress::V4([0u8, 0u8, 0u8, 0u8]), port }
    }
}

/// Settings that client and server must agree on.
#[derive(Clone, Copy, Debug, PartialEq, Eq)]
pub struct SharedSettings {
    /// Identifies the game's protocol; peers with different ids do not connect.
    pub protocol_id: u64,
    /// Key with which connect tokens are signed.
    pub private_key: [u8; PRIVATE_KEY_BYTES],
}

/// A set of peers to which something is sent.
#[derive(Clone, Copy, Debug, PartialEq, Eq, Structural)]
pub enum NetworkTarget {
    /// Every peer.
    All,
    /// Only the given peer.
    Single(PeerId),
    /// Every peer but the given one.
    AllExceptSingle(PeerId),
}

impl NetworkTarget {
    /// Whether `peer` is in the set.
    pub open spec fn includes(self, peer: PeerId) -> bool {
        match self {
            NetworkTarget::All => true,
            NetworkTarget::Single(p) => p == peer,
            NetworkTarget::AllExceptSingle(p) => p != peer,
        }
    }

    /// Whether `peer` is in the set.
    pub fn targets(&self, peer: PeerId) -> (r: bool)
        ensures
            r == self.includes(peer),
    {
        match self {
            NetworkTarget::All => true,
            NetworkTarget::Single(p) => *p == peer,
            NetworkTarget::AllExceptSingle(p) => *p != peer,
        }
    }
}

} // verus!
