use peers::address::{IpAddress, PeerAddress};
use peers::admission::Admission;
use peers::connector::{is_self_connection, DialOutcome};
use peers::error::NetworkError;
use peers::listener::bind_address;
use peers::registry::PeerRegistry;

fn v4(a: u8, b: u8, c: u8, d: u8, port: u16) -> PeerAddress {
    PeerAddress::new(IpAddress::from_octets(a, b, c, d), port)
}

fn listening_at(local: PeerAddress) -> PeerRegistry {
    let mut registry = PeerRegistry::new();
    registry.listen(local);
    registry
}

#[test]
fn dialing_needs_the_local_address() {
    let registry = PeerRegistry::new();
    assert_eq!(registry.connect_to(v4(10, 0, 0, 7, 4130)), Err(NetworkError::LocalAddressUnknown));
    // Even an address that would be the node itself is answered with the missing address.
    assert_eq!(registry.connect_to(v4(127, 0, 0, 1, 0)), Err(NetworkError::LocalAddressUnknown));
}

#[test]
fn a_node_does_not_dial_its_own_address() {
    let local = v4(192, 168, 1, 20, 4130);
    let registry = listening_at(local);
    assert_eq!(registry.connect_to(local), Err(NetworkError::SelfConnectAttempt));
}

#[test]
fn a_node_does_not_dial_its_own_port_on_this_host() {
    let registry = listening_at(bind_address(4130));
    for target in [
        v4(127, 0, 0, 1, 4130),
        v4(127, 0, 0, 2, 4130),
        v4(127, 255, 255, 255, 4130),
        v4(0, 0, 0, 0, 4130),
        PeerAddress::new(IpAddress::V6(1), 4130),
        PeerAddress::new(IpAddress::V6(0), 4130),
    ] {
        assert_eq!(registry.connect_to(target), Err(NetworkError::SelfConnectAttempt));
    }
}

#[test]
fn other_addresses_may_be_dialed() {
    let registry = listening_at(bind_address(4130));
    for target in [
        v4(127, 0, 0, 1, 4131),
        v4(0, 0, 0, 0, 4131),
        v4(10, 0, 0, 7, 4130),
        v4(128, 0, 0, 1, 4130),
        PeerAddress::new(IpAddress::V6(2), 4130),
        PeerAddress::new(IpAddress::V6(1), 4129),
    ] {
        assert_eq!(registry.connect_to(target), Ok(()));
    }
}

#[test]
fn the_guard_reads_only_the_two_addresses() {
    let local = v4(192, 168, 1, 20, 4130);
    assert!(is_self_connection(local, local));
    assert!(is_self_connection(local, v4(127, 0, 0, 1, 4130)));
    assert!(is_self_connection(local, v4(0, 0, 0, 0, 4130)));
    assert!(!is_self_connection(local, v4(192, 168, 1, 20, 4131)));
    assert!(!is_self_connection(local, v4(192, 168, 1, 21, 4130)));
    assert!(!is_self_connection(local, v4(127, 0, 0, 1, 4131)));
}

#[test]
fn a_dial_that_timed_out_is_reported_as_a_timeout() {
    let registry = listening_at(bind_address(4130));
    assert_eq!(
        registry.dialed(v4(10, 0, 0, 7, 4130), DialOutcome::TimedOut, 10),
        Err(NetworkError::DialTimeout)
    );
}

#[test]
fn a_dial_that_was_refused_is_reported_as_failed() {
    let registry = listening_at(bind_address(4130));
    assert_eq!(
        registry.dialed(v4(10, 0, 0, 7, 4130), DialOutcome::Failed, 10),
        Err(NetworkError::DialFailed)
    );
}

#[test]
fn an_open_stream_goes_to_admission_control() {
    let registry = listening_at(bind_address(4130));
    let target = v4(10, 0, 0, 7, 4130);
    assert_eq!(registry.dialed(target, DialOutcome::Connected, 10), Ok(Admission::Accepted));
    assert_eq!(
        registry.dialed(target, DialOutcome::Connected, 0),
        Ok(Admission::MaximumPeersReached)
    );
    // Nothing is entered by the dial itself.
    assert_eq!(registry.connection_count(), 0);
    assert!(!registry.is_connected_to(target));
}
