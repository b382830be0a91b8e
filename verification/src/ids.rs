//! Identifiers for logical networks and peers.

use vstd::prelude::*;

verus! {

/// A logical network is an isolated addressing and trust domain. The
/// validator network is the permissioned class; the others are open.
#[derive(Clone, Copy, Debug, PartialEq, Eq, Structural, Hash)]
pub enum NetworkId {
    Validator,
    Vfn,
    Public,
}

impl NetworkId {
    /// True exactly for the permissioned validator class.
    pub fn is_validator_network(&self) -> (r: bool)
        ensures
            r == (*self is Validator),
    {
        match self {
            NetworkId::Validator => true,
            _ => false,
        }
    }
}

/// Identity of a remote peer, as resolved by the transport layer.
#[derive(Clone, Copy, Debug, PartialEq, Eq, Structural, Hash)]
pub struct PeerId(pub u64);

/// The chain/network-epoch identifier, threaded through to the handshake
/// layer unchanged.
#[derive(Clone, Copy, Debug, PartialEq, Eq, Structural, Hash)]
pub struct ChainId(pub u8);

} // verus!
