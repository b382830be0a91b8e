//! Error types. Fatal errors mark unrecoverable misconfiguration found at
//! construction time; send errors are recoverable and reported to the caller.

use vstd::prelude::*;
use crate::ids::NetworkId;
use crate::ids::PeerId;
use crate::protocol::ProtocolId;

verus! {

/// Unrecoverable misconfiguration. A caller in charge of process startup is
/// expected to abort deliberately on any of these.
#[derive(Clone, Copy, Debug, PartialEq, Eq, Structural)]
pub enum FatalError {
    /// A network of the permissioned validator class was configured without
    /// mutual authentication.
    ValidatorMutualAuthenticationDisabled,
    /// An application declared no inbound protocol; a message source cannot
    /// be built from zero receivers.
    EmptyMessageSource,
    /// A protocol identifier was registered twice; protocol ownership must be
    /// unique process-wide.
    DuplicateProtocol(ProtocolId),
}

/// Recoverable failure of an outbound send, reported to the caller.
#[derive(Clone, Copy, Debug, PartialEq, Eq, Structural)]
pub enum SendError {
    /// The client was built without this logical network (possibly without
    /// any network at all), so nothing can be dispatched over it.
    NoAvailableNetwork(NetworkId),
    /// The protocol is not in the protocol set this client was built with.
    UnsupportedProtocol(ProtocolId),
    /// The peer registry holds no entry for the destination on this network.
    DestinationUnreachable(PeerId),
    /// No live outbound connection to the destination is tracked.
    PeerNotConnected(PeerId),
}

} // verus!
