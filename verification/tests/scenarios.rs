use peers::address::{IpAddress, PeerAddress};
use peers::channel::Router;
use peers::admission::Admission;
use peers::connector::DialOutcome;
use peers::handshake::{Handshake, HandshakeAction, HandshakeEvent};
use peers::listener::{bind_address, Accepted};
use peers::message::{BlockHeader, Message};
use peers::registry::PeerRegistry;
use peers::session::{PeerSession, SessionAction, SessionEvent, SessionState, Termination};
use std::collections::VecDeque;

const MAXIMUM_NUMBER_OF_PEERS: usize = 8;

fn genesis() -> BlockHeader {
    BlockHeader { height: 0, payload: vec![0x61, 0x6c, 0x65, 0x6f], is_valid: true }
}

/// One end of a connection between two nodes in one process: the handshake of
/// that end, what it is about to do, and the frames on their way to it.
struct End {
    handshake: Handshake,
    pending: HandshakeAction,
    inbox: VecDeque<Message>,
    admitted: Option<PeerAddress>,
}

impl End {
    fn new(mut handshake: Handshake) -> End {
        let pending = handshake.step(HandshakeEvent::Ready);
        End { handshake, pending, inbox: VecDeque::new(), admitted: None }
    }

    fn is_over(&self) -> bool {
        matches!(self.pending, HandshakeAction::Admit(_) | HandshakeAction::Abort(_) | HandshakeAction::Done)
    }
}

/// Performs the pending action of `end` if it can be performed now, and says
/// whether it was.
fn advance(end: &mut End, other: &mut End) -> bool {
    let event = match &end.pending {
        HandshakeAction::Send(message) => {
            other.inbox.push_back(message.clone());
            HandshakeEvent::Sent
        }
        HandshakeAction::Receive => match end.inbox.pop_front() {
            Some(message) => HandshakeEvent::Received(message),
            None if other.is_over() => HandshakeEvent::Closed,
            None => return false,
        },
        HandshakeAction::Sleep(_) => HandshakeEvent::Elapsed,
        HandshakeAction::Admit(_) | HandshakeAction::Abort(_) | HandshakeAction::Done => return false,
    };
    end.pending = end.handshake.step(event);
    if let HandshakeAction::Admit(address) = &end.pending {
        end.admitted = Some(*address);
    }
    true
}

/// Runs the two ends of a connection against each other until neither moves.
fn exchange(a: &mut End, b: &mut End) {
    loop {
        let a_moved = advance(a, b);
        let b_moved = advance(b, a);
        if !a_moved && !b_moved {
            break;
        }
    }
}

#[test]
fn two_nodes_enter_each_other_under_their_listener_ports() {
    // Node A binds port 4130, node B binds port 4131.
    let mut a = PeerRegistry::new();
    a.listen(bind_address(4130));
    let mut b = PeerRegistry::new();
    b.listen(bind_address(4131));

    // B dials A. The connection leaves B from a port that the system picked.
    let a_address = PeerAddress::new(IpAddress::from_octets(127, 0, 0, 1), 4130);
    let b_source = PeerAddress::new(IpAddress::from_octets(127, 0, 0, 1), 53_771);
    assert_eq!(b.connect_to(a_address), Ok(()));
    assert_eq!(
        b.dialed(a_address, DialOutcome::Connected, MAXIMUM_NUMBER_OF_PEERS),
        Ok(Admission::Accepted)
    );
    assert_eq!(
        a.accepted(Accepted::Stream(b_source), MAXIMUM_NUMBER_OF_PEERS).admission,
        Some(Admission::Accepted)
    );

    let mut a_end = End::new(a.handshake(genesis(), b_source).unwrap());
    let mut b_end = End::new(b.handshake(genesis(), a_address).unwrap());
    exchange(&mut a_end, &mut b_end);

    let b_address = PeerAddress::new(IpAddress::from_octets(127, 0, 0, 1), 4131);
    assert_eq!(a_end.admitted, Some(b_address));
    assert_eq!(b_end.admitted, Some(a_address));
    let (a_session, mut to_b) = a.register(a_end.handshake, 0).unwrap();
    let (b_session, mut to_a) = b.register(b_end.handshake, 0).unwrap();

    assert!(a.is_connected_to(b_address));
    assert!(!a.is_connected_to(b_source));
    assert!(b.is_connected_to(a_address));
    assert_eq!(a.connection_count(), 1);
    assert_eq!(b.connection_count(), 1);
    assert_eq!(a_session.address(), b_address);
    assert_eq!(b_session.address(), a_address);

    // What either node enqueues for the other comes out at the other's session.
    a.send_to(b_address).unwrap().try_send(Message::Ping(7)).unwrap();
    b.send_to(a_address).unwrap().try_send(Message::Ping(8)).unwrap();
    assert_eq!(to_b.try_recv(), Ok(Message::Ping(7)));
    assert_eq!(to_a.try_recv(), Ok(Message::Ping(8)));

    // The first ping of each side is on its way to the other.
    assert_eq!(a_end.inbox, VecDeque::from(vec![Message::Ping(0)]));
    assert_eq!(b_end.inbox, VecDeque::from(vec![Message::Ping(0)]));
}

#[test]
fn two_nodes_with_different_genesis_headers_enter_nothing() {
    let mut a = PeerRegistry::new();
    a.listen(bind_address(4130));
    let mut b = PeerRegistry::new();
    b.listen(bind_address(4131));
    let a_address = bind_address(4130);
    let b_source = PeerAddress::new(IpAddress::from_octets(127, 0, 0, 1), 53_771);

    let other_chain = BlockHeader { height: 0, payload: vec![0x62, 0x74, 0x63], is_valid: true };
    let mut a_end = End::new(a.handshake(genesis(), b_source).unwrap());
    let mut b_end = End::new(b.handshake(other_chain, a_address).unwrap());
    exchange(&mut a_end, &mut b_end);

    assert_eq!(a_end.admitted, None);
    assert_eq!(b_end.admitted, None);
    assert!(a.register(a_end.handshake, 0).is_err());
    assert!(b.register(b_end.handshake, 0).is_err());
    assert_eq!(a.connection_count(), 0);
    assert_eq!(b.connection_count(), 0);
    assert!(!a.is_connected_to(bind_address(4131)));
    assert!(!b.is_connected_to(a_address));
}

/// The session and the registry of a node at 4130 that has admitted one peer.
fn admitted_at(now: u64) -> (PeerRegistry, PeerSession, Router, PeerAddress) {
    let mut registry = PeerRegistry::new();
    registry.listen(bind_address(4130));
    let source = PeerAddress::new(IpAddress::from_octets(10, 0, 0, 7), 40_001);
    let mut handshake: Handshake = registry.handshake(genesis(), source).unwrap();
    handshake.step(HandshakeEvent::Ready);
    handshake.step(HandshakeEvent::Sent);
    handshake.step(HandshakeEvent::Received(Message::ChallengeRequest(4131, 0)));
    handshake.step(HandshakeEvent::Sent);
    handshake.step(HandshakeEvent::Received(Message::ChallengeResponse(genesis())));
    handshake.step(HandshakeEvent::Elapsed);
    handshake.step(HandshakeEvent::Sent);
    let (session, router) = registry.register(handshake, now).unwrap();
    (registry, session, router, PeerAddress::new(IpAddress::from_octets(10, 0, 0, 7), 4131))
}

#[test]
fn a_ping_on_the_socket_is_answered_with_one_pong_first() {
    let (_registry, mut session, _router, _peer) = admitted_at(0);
    let mut written = Vec::new();
    for event in [
        SessionEvent::Inbound(Message::Ping(0), 10),
        SessionEvent::Outbound(Message::Ping(4), 11),
    ] {
        if let SessionAction::Send(message, delay) = session.step(event) {
            written.push((message, delay));
        }
    }
    assert_eq!(written, vec![(Message::Pong, 0), (Message::Ping(4), 0)]);
}

#[test]
fn a_peer_that_stays_silent_is_dropped_and_its_entry_disappears() {
    let (mut registry, mut session, mut router, peer) = admitted_at(5_000);
    assert!(registry.is_connected_to(peer));

    // No frame arrives. Some 280 seconds and a bit later the node has something to send.
    registry.send_to(peer).unwrap().try_send(Message::Ping(2)).unwrap();
    let message = router.try_recv().unwrap();
    let action = session.step(SessionEvent::Outbound(message, 285_001));
    assert_eq!(action, SessionAction::Disconnect(peer, Termination::Inactivity));
    assert_eq!(session.state(), SessionState::Terminated(Termination::Inactivity));
    if let SessionAction::Disconnect(address, _) = action {
        assert!(registry.remove(address).is_some());
    }
    assert!(!registry.is_connected_to(peer));
    assert_eq!(registry.connection_count(), 0);
}

#[test]
fn the_keepalive_train_keeps_a_session_alive() {
    let (registry, mut session, _router, peer) = admitted_at(0);
    let mut now = 0;
    // The peer's first ping arrives, then pong and ping go back and forth.
    assert_eq!(
        session.step(SessionEvent::Inbound(Message::Ping(0), now)),
        SessionAction::Send(Message::Pong, 0)
    );
    for _ in 0..20 {
        now += 20_500;
        assert_eq!(
            session.step(SessionEvent::Inbound(Message::Pong, now)),
            SessionAction::Send(Message::Ping(1), 20_000)
        );
        assert_eq!(
            session.step(SessionEvent::Outbound(Message::Ping(9), now + 20_000)),
            SessionAction::Send(Message::Ping(9), 0)
        );
    }
    assert_eq!(session.state(), SessionState::Active);
    assert!(registry.is_connected_to(peer));
}
