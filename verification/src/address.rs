//! Network endpoints as plain values.

use vstd::prelude::*;

verus! {

/// The endpoint of a connection: the identity under which the registry knows
/// a client. Two addresses are the same endpoint exactly when they are of the
/// same family and all their fields agree.
#[allow(inconsistent_fields)]
#[derive(Clone, Copy, Debug, PartialEq, Eq, Structural, Hash)]
pub enum Address {
    /// An IPv4 endpoint: the host address as a big-endian number, and the port.
    V4 { ip: u32, port: u16 },
    /// An IPv6 endpoint: the host address as a big-endian number, the port,
    /// the flow information and the scope identifier.
    V6 { ip: u128, port: u16, flowinfo: u32, scope_id: u32 },
}

} // verus!
