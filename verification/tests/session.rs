use peers::address::{IpAddress, PeerAddress};
use peers::error::NetworkError;
use peers::message::{BlockHeader, Message};
use peers::session::{
    PeerSession, SessionAction, SessionEvent, SessionState, Termination,
    INACTIVITY_TIMEOUT_MILLIS, KEEPALIVE_DELAY_MILLIS, KEEPALIVE_PING_HEIGHT,
};

fn peer() -> PeerAddress {
    PeerAddress::new(IpAddress::from_octets(10, 0, 0, 7), 4131)
}

fn header() -> BlockHeader {
    BlockHeader { height: 0, payload: vec![9, 9], is_valid: true }
}

#[test]
fn the_constants_of_the_session() {
    assert_eq!(INACTIVITY_TIMEOUT_MILLIS, 280_000);
    assert_eq!(KEEPALIVE_DELAY_MILLIS, 20_000);
    assert_eq!(KEEPALIVE_PING_HEIGHT, 1);
}

#[test]
fn a_new_session_is_active_and_seen_now() {
    let session = PeerSession::new(peer(), 12_345);
    assert_eq!(session.address(), peer());
    assert_eq!(session.last_seen(), 12_345);
    assert_eq!(session.state(), SessionState::Active);
}

#[test]
fn an_outbound_message_is_written_at_once() {
    let mut session = PeerSession::new(peer(), 1_000);
    assert_eq!(
        session.step(SessionEvent::Outbound(Message::Ping(5), 2_000)),
        SessionAction::Send(Message::Ping(5), 0)
    );
    assert_eq!(
        session.step(SessionEvent::Outbound(Message::ChallengeResponse(header()), 2_000)),
        SessionAction::Send(Message::ChallengeResponse(header()), 0)
    );
    assert_eq!(session.state(), SessionState::Active);
    // What the node sends says nothing of the peer.
    assert_eq!(session.last_seen(), 1_000);
}

#[test]
fn a_ping_is_answered_with_a_pong_at_once() {
    let mut session = PeerSession::new(peer(), 1_000);
    assert_eq!(
        session.step(SessionEvent::Inbound(Message::Ping(0), 1_500)),
        SessionAction::Send(Message::Pong, 0)
    );
    assert_eq!(
        session.step(SessionEvent::Inbound(Message::Ping(77), 1_600)),
        SessionAction::Send(Message::Pong, 0)
    );
    assert_eq!(session.state(), SessionState::Active);
}

#[test]
fn a_pong_is_answered_with_a_ping_after_the_keepalive_delay() {
    let mut session = PeerSession::new(peer(), 1_000);
    assert_eq!(
        session.step(SessionEvent::Inbound(Message::Pong, 1_500)),
        SessionAction::Send(Message::Ping(1), 20_000)
    );
    assert_eq!(session.state(), SessionState::Active);
}

#[test]
fn every_message_of_the_peer_is_recorded_as_seen() {
    let mut session = PeerSession::new(peer(), 1_000);
    session.step(SessionEvent::Inbound(Message::Ping(0), 1_500));
    assert_eq!(session.last_seen(), 1_500);
    session.step(SessionEvent::Inbound(Message::Pong, 9_000));
    assert_eq!(session.last_seen(), 9_000);
    // A message that ends the session was read all the same.
    session.step(SessionEvent::Inbound(Message::ChallengeRequest(1, 0), 9_500));
    assert_eq!(session.last_seen(), 9_500);
}

#[test]
fn a_handshake_message_after_the_handshake_ends_the_session() {
    for message in [Message::ChallengeRequest(4131, 0), Message::ChallengeResponse(header())] {
        let mut session = PeerSession::new(peer(), 1_000);
        assert_eq!(
            session.step(SessionEvent::Inbound(message, 1_500)),
            SessionAction::Disconnect(peer(), Termination::ProtocolViolation)
        );
        assert_eq!(session.state(), SessionState::Terminated(Termination::ProtocolViolation));
    }
}

#[test]
fn the_inactivity_threshold_is_exact() {
    let mut session = PeerSession::new(peer(), 1_000);
    assert!(!session.is_silent(1_000));
    assert!(!session.is_silent(281_000));
    assert!(session.is_silent(281_001));
    assert_eq!(
        session.step(SessionEvent::Outbound(Message::Ping(5), 281_000)),
        SessionAction::Send(Message::Ping(5), 0)
    );
    assert_eq!(
        session.step(SessionEvent::Outbound(Message::Ping(5), 281_001)),
        SessionAction::Disconnect(peer(), Termination::Inactivity)
    );
    assert_eq!(session.state(), SessionState::Terminated(Termination::Inactivity));
}

#[test]
fn a_message_of_the_peer_resets_the_silence() {
    let mut session = PeerSession::new(peer(), 0);
    session.step(SessionEvent::Inbound(Message::Pong, 200_000));
    assert!(!session.is_silent(480_000));
    assert_eq!(
        session.step(SessionEvent::Outbound(Message::Ping(5), 480_000)),
        SessionAction::Send(Message::Ping(5), 0)
    );
    assert!(session.is_silent(480_001));
}

#[test]
fn a_clock_reading_from_before_the_last_message_counts_as_no_silence() {
    let mut session = PeerSession::new(peer(), 500_000);
    assert!(!session.is_silent(0));
    assert_eq!(
        session.step(SessionEvent::Outbound(Message::Pong, 10)),
        SessionAction::Send(Message::Pong, 0)
    );
}

#[test]
fn the_silence_is_measured_without_overflow() {
    let session = PeerSession::new(peer(), 0);
    assert!(session.is_silent(u64::MAX));
    let late = PeerSession::new(peer(), u64::MAX);
    assert!(!late.is_silent(u64::MAX));
    assert!(!late.is_silent(0));
}

#[test]
fn a_silent_peer_is_dropped_only_when_something_is_to_be_sent() {
    let mut session = PeerSession::new(peer(), 0);
    // The peer speaks again, late: that is a message like any other.
    assert_eq!(
        session.step(SessionEvent::Inbound(Message::Ping(0), 900_000)),
        SessionAction::Send(Message::Pong, 0)
    );
    assert_eq!(session.state(), SessionState::Active);
}

#[test]
fn a_stream_that_ends_ends_the_session_without_an_error() {
    let mut session = PeerSession::new(peer(), 0);
    assert_eq!(
        session.step(SessionEvent::StreamClosed),
        SessionAction::Disconnect(peer(), Termination::StreamClosed)
    );
    assert_eq!(Termination::StreamClosed.error(), None);
}

#[test]
fn a_stream_error_ends_the_session() {
    let mut session = PeerSession::new(peer(), 0);
    assert_eq!(
        session.step(SessionEvent::StreamError),
        SessionAction::Disconnect(peer(), Termination::StreamError)
    );
    assert_eq!(session.state(), SessionState::Terminated(Termination::StreamError));
}

#[test]
fn a_frame_that_is_no_message_ends_the_session() {
    let mut session = PeerSession::new(peer(), 0);
    assert_eq!(
        session.step(SessionEvent::Malformed),
        SessionAction::Disconnect(peer(), Termination::Malformed)
    );
    assert_eq!(Termination::Malformed.error(), Some(NetworkError::SerializationFailed));
}

#[test]
fn the_error_of_each_termination() {
    assert_eq!(Termination::Inactivity.error(), None);
    assert_eq!(Termination::ProtocolViolation.error(), Some(NetworkError::UnexpectedMessage));
    assert_eq!(Termination::Malformed.error(), Some(NetworkError::SerializationFailed));
    assert_eq!(Termination::StreamError.error(), None);
    assert_eq!(Termination::StreamClosed.error(), None);
}

#[test]
fn a_session_asks_once_for_its_entry_to_be_erased() {
    let mut session = PeerSession::new(peer(), 0);
    let actions = vec![
        session.step(SessionEvent::Inbound(Message::Ping(0), 10)),
        session.step(SessionEvent::StreamError),
        session.step(SessionEvent::StreamClosed),
        session.step(SessionEvent::Inbound(Message::Ping(0), 20)),
        session.step(SessionEvent::Outbound(Message::Pong, 999_999)),
        session.step(SessionEvent::Malformed),
    ];
    assert_eq!(
        actions,
        vec![
            SessionAction::Send(Message::Pong, 0),
            SessionAction::Disconnect(peer(), Termination::StreamError),
            SessionAction::Idle,
            SessionAction::Idle,
            SessionAction::Idle,
            SessionAction::Idle,
        ]
    );
    // The first cause stands, and nothing is recorded after the end.
    assert_eq!(session.state(), SessionState::Terminated(Termination::StreamError));
    assert_eq!(session.last_seen(), 10);
}
