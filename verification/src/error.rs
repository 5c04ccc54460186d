//! The ways in which a connection attempt or a session can fail.

use vstd::prelude::*;

verus! {

/// Why a connection attempt, a handshake or a delivery did not go through.
///
/// None of them ends more than the one attempt or session it belongs to.
#[derive(Clone, Copy, Debug, PartialEq, Eq, Structural, Hash)]
pub enum NetworkError {
    /// The listener has not bound yet, so the node does not know its own address.
    LocalAddressUnknown,
    /// The address to dial is this node.
    SelfConnectAttempt,
    /// The dial did not complete within the connection timeout.
    DialTimeout,
    /// The dial was refused or reset.
    DialFailed,
    /// The stream closed or failed before the handshake was over.
    HandshakeIncomplete,
    /// The peer sent a message that the protocol does not allow at that point.
    UnexpectedMessage,
    /// The peer answered the challenge with a header that is not this node's
    /// genesis header.
    ChallengeRejected,
    /// There is no admitted session for the address.
    PeerNotConnected,
    /// A message could not be turned into bytes, or bytes into a message.
    SerializationFailed,
}

} // verus!
