//! The listener: where it binds, what it records, and what it does with each
//! connection that it accepts.

use crate::address::{IpAddress, PeerAddress};
use crate::admission::Admission;
use crate::registry::{PeerRegistry, RegistryView};
use vstd::prelude::*;

verus! {

/// How long the listener rests after each connection that it has accepted, in
/// milliseconds. The rest bounds the rate of admissions, so that a burst of
/// connections does not take the node over its peer limit.
pub const ADMISSION_PAUSE_MILLIS: u64 = 1;

/// What one call of accept gave the listener.
#[derive(Clone, Copy, Debug, PartialEq, Eq, Structural, Hash)]
pub enum Accepted {
    /// A connection, from this address.
    Stream(PeerAddress),
    /// An error. The listener reports it and goes on.
    Failed,
}

/// What the listener does before it accepts again.
#[derive(Clone, Copy, Debug, PartialEq, Eq, Structural, Hash)]
pub struct ListenerStep {
    /// The fate of the connection, if one was accepted.
    pub admission: Option<Admission>,
    /// How long to rest, in milliseconds.
    pub pause_millis: u64,
}

/// The address at which a node with the given listener port binds: the port on
/// the local host. Port 0 asks for any free port.
pub open spec fn spec_bind_address(port: u16) -> PeerAddress {
    PeerAddress { ip: IpAddress::V4(0x7f00_0001), port }
}

#[verifier::when_used_as_spec(spec_bind_address)]
pub fn bind_address(port: u16) -> (address: PeerAddress)
    ensures
        address == spec_bind_address(port),
{
    PeerAddress::new(IpAddress::from_octets(127, 0, 0, 1), port)
}

impl RegistryView {
    /// What follows from one call of accept: a connection is put to admission
    /// control and followed by the admission pause; an error is followed by
    /// nothing.
    pub open spec fn accepted(
        self,
        accepted: Accepted,
        maximum_number_of_peers: usize,
    ) -> ListenerStep {
        match accepted {
            Accepted::Stream(remote_ip) => ListenerStep {
                admission: Some(self.process(remote_ip, maximum_number_of_peers)),
                pause_millis: ADMISSION_PAUSE_MILLIS,
            },
            Accepted::Failed => ListenerStep { admission: None, pause_millis: 0 },
        }
    }
}

impl PeerRegistry {
    /// Records the address that the listener has bound as the node's own.
    ///
    /// A node binds once. To bind again, or to record another address over the
    /// first, is a fault of the program and not a condition to recover from.
    pub fn listen(&mut self, bound: PeerAddress)
        requires
            old(self)@.local_address is None,
        ensures
            final(self)@ == old(self)@.bind(bound),
            final(self)@.wf(),
    {
        self.set_local_address(bound);
    }

    /// Decides what the listener does with what accept gave it.
    pub fn accepted(
        &self,
        accepted: Accepted,
        maximum_number_of_peers: usize,
    ) -> (step: ListenerStep)
        ensures
            step == self@.accepted(accepted, maximum_number_of_peers),
    {
        match accepted {
            Accepted::Stream(remote_ip) => ListenerStep {
                admission: Some(self.process(remote_ip, maximum_number_of_peers)),
                pause_millis: ADMISSION_PAUSE_MILLIS,
            },
            Accepted::Failed => ListenerStep { admission: None, pause_millis: 0 },
        }
    }
}

} // verus!
