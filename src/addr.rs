use vstd::prelude::*;

verus! {

/// The network address of a peer, held as plain values: the key under which
/// the relay routes a peer's datagrams to its session.
#[allow(inconsistent_fields)]
#[derive(Clone, Copy, Debug, PartialEq, Eq, Structural, Hash)]
pub enum PeerAddr {
    /// An IPv4 address (as a big-endian integer) and a port.
    V4 { ip: u32, port: u16 },
    /// An IPv6 address (as a big-endian integer), a port, the flow
    /// information and the scope identifier.
    V6 { ip: u128, port: u16, flowinfo: u32, scope_id: u32 },
}

} // verus!
