//! The connector: whether an address may be dialed at all, and what a dial that
//! was made comes to.

use crate::address::PeerAddress;
use crate::admission::Admission;
use crate::error::NetworkError;
use crate::registry::{PeerRegistry, RegistryView};
use vstd::prelude::*;

verus! {

/// Whether to dial `target` from a node that listens at `local` would be to dial
/// the node itself: `target` is `local`, or it is an unspecified or loopback
/// address with `local`'s port.
pub open spec fn spec_is_self_connection(local: PeerAddress, target: PeerAddress) -> bool {
    target == local || ((target.ip.spec_is_unspecified() || target.ip.spec_is_loopback())
        && target.port == local.port)
}

#[verifier::when_used_as_spec(spec_is_self_connection)]
pub fn is_self_connection(local: PeerAddress, target: PeerAddress) -> (is_self: bool)
    ensures
        is_self == spec_is_self_connection(local, target),
{
    let same_port_on_this_host = (target.ip().is_unspecified() || target.ip().is_loopback())
        && target.port() == local.port();
    target == local || same_port_on_this_host
}

/// How a dial ended.
#[derive(Clone, Copy, Debug, PartialEq, Eq, Structural, Hash)]
pub enum DialOutcome {
    /// The stream is open.
    Connected,
    /// The connection timeout ran out first.
    TimedOut,
    /// The connection was refused or reset.
    Failed,
}

impl RegistryView {
    /// Whether `peer_ip` may be dialed.
    pub open spec fn connect_to(self, peer_ip: PeerAddress) -> Result<(), NetworkError> {
        match self.local_address {
            None => Err(NetworkError::LocalAddressUnknown),
            Some(local) => if spec_is_self_connection(local, peer_ip) {
                Err(NetworkError::SelfConnectAttempt)
            } else {
                Ok(())
            },
        }
    }

    /// What a dial of `peer_ip` comes to.
    pub open spec fn dialed(
        self,
        peer_ip: PeerAddress,
        outcome: DialOutcome,
        maximum_number_of_peers: usize,
    ) -> Result<Admission, NetworkError> {
        match outcome {
            DialOutcome::Connected => Ok(self.process(peer_ip, maximum_number_of_peers)),
            DialOutcome::TimedOut => Err(NetworkError::DialTimeout),
            DialOutcome::Failed => Err(NetworkError::DialFailed),
        }
    }
}

impl PeerRegistry {
    /// Decides whether `peer_ip` may be dialed, before any socket is opened:
    /// the driver dials only on `Ok`.
    ///
    /// The node must know its own address by now. It never dials itself:
    /// neither its own address, nor an unspecified or loopback address with its
    /// own port.
    pub fn connect_to(&self, peer_ip: PeerAddress) -> (permit: Result<(), NetworkError>)
        ensures
            permit == self@.connect_to(peer_ip),
            match self@.local_address {
                None => permit == Err::<(), NetworkError>(NetworkError::LocalAddressUnknown),
                Some(local) => {
                    let on_this_host = peer_ip.ip.spec_is_unspecified()
                        || peer_ip.ip.spec_is_loopback();
                    let to_itself = peer_ip == local || (on_this_host && peer_ip.port
                        == local.port);
                    permit == if to_itself {
                        Err::<(), NetworkError>(NetworkError::SelfConnectAttempt)
                    } else {
                        Ok::<(), NetworkError>(())
                    }
                },
            },
    {
        match self.local_address() {
            Err(error) => Err(error),
            Ok(local) => {
                if is_self_connection(local, peer_ip) {
                    Err(NetworkError::SelfConnectAttempt)
                } else {
                    Ok(())
                }
            },
        }
    }

    /// Decides what follows a dial of `peer_ip`. A dial that timed out and a
    /// dial that was refused are reported as such, for the caller to try again
    /// or give up. A stream that is open goes to admission control, as one that
    /// the listener accepted does.
    pub fn dialed(
        &self,
        peer_ip: PeerAddress,
        outcome: DialOutcome,
        maximum_number_of_peers: usize,
    ) -> (result: Result<Admission, NetworkError>)
        ensures
            result == self@.dialed(peer_ip, outcome, maximum_number_of_peers),
    {
        match outcome {
            DialOutcome::Connected => Ok(self.process(peer_ip, maximum_number_of_peers)),
            DialOutcome::TimedOut => Err(NetworkError::DialTimeout),
            DialOutcome::Failed => Err(NetworkError::DialFailed),
        }
    }
}

} // verus!
