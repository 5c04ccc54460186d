//! Admission control: what every new connection goes through, inbound or
//! outbound, before a handshake is spent on it.

use crate::address::PeerAddress;
use crate::registry::{PeerRegistry, RegistryView};
use vstd::prelude::*;

verus! {

/// What becomes of a new connection.
#[derive(Clone, Copy, Debug, PartialEq, Eq, Structural, Hash)]
pub enum Admission {
    /// The connection goes on to the handshake, in a task of its own.
    Accepted,
    /// The connection is dropped: the node has as many peers as it may have.
    MaximumPeersReached,
    /// The connection is dropped: there is an admitted session for the address
    /// already.
    AlreadyConnected,
}

impl RegistryView {
    /// The fate of a new connection from or to `peer_ip`, on a node that may
    /// have `maximum_number_of_peers` peers. The peer count is looked at first.
    pub open spec fn process(
        self,
        peer_ip: PeerAddress,
        maximum_number_of_peers: usize,
    ) -> Admission {
        if self.connection_count() >= maximum_number_of_peers {
            Admission::MaximumPeersReached
        } else if self.is_connected_to(peer_ip) {
            Admission::AlreadyConnected
        } else {
            Admission::Accepted
        }
    }
}

impl PeerRegistry {
    /// Decides whether a new connection from or to `peer_ip` goes on to the
    /// handshake. The registry is not changed: an entry is made only when the
    /// handshake has completed.
    pub fn process(
        &self,
        peer_ip: PeerAddress,
        maximum_number_of_peers: usize,
    ) -> (admission: Admission)
        ensures
            admission == self@.process(peer_ip, maximum_number_of_peers),
    {
        if self.connection_count() >= maximum_number_of_peers {
            Admission::MaximumPeersReached
        } else if self.is_connected_to(peer_ip) {
            Admission::AlreadyConnected
        } else {
            Admission::Accepted
        }
    }
}

} // verus!
