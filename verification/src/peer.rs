//! Connection identities.

use vstd::prelude::*;

verus! {

/// The identity of one live connection: the remote socket address of the
/// peer, held as plain integers.
///
/// Two identities are equal exactly when every field is equal, so distinct
/// remote addresses always give distinct identities.
#[derive(Clone, Copy, Debug, PartialEq, Eq, Hash, Structural)]
pub enum PeerId {
    /// An IPv4 peer: the address as a big-endian integer, and the port.
    V4 { ipv4: u32, port: u16 },
    /// An IPv6 peer: the address as a big-endian integer, the port, the flow
    /// information and the scope identifier.
    V6 { ipv6: u128, port: u16, flowinfo: u32, scope_id: u32 },
}

} // verus!
