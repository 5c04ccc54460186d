//! The steady state of an admitted peer.
//!
//! After the handshake a connection is a message pump: what the node wants sent
//! goes out, what the peer sends is answered, and a peer that stays silent for
//! too long is dropped. [`PeerSession`] decides, event by event, what the driver
//! that owns the socket does next. Times are milliseconds on a clock that never
//! runs backwards, read by the driver.

use crate::address::PeerAddress;
use crate::channel::{open_channel, Outbound, Router, OUTBOUND_CHANNEL_CAPACITY};
use crate::error::NetworkError;
use crate::handshake::{Handshake, HandshakeEventView, HandshakeView, CHALLENGE_HEIGHT};
use crate::message::{BlockHeaderView, Message, MessageView};
use crate::registry::{insertion_adds_one_entry, PeerRegistry, RegistryView};
use vstd::prelude::*;

verus! {

/// How long a peer may stay silent before its session ends, in milliseconds.
pub const INACTIVITY_TIMEOUT_MILLIS: u64 = 280_000;

/// How long a pong rests before it is answered with the next ping, in
/// milliseconds.
pub const KEEPALIVE_DELAY_MILLIS: u64 = 20_000;

/// The height carried by the pings of the keepalive train.
pub const KEEPALIVE_PING_HEIGHT: u32 = 1;

/// Why a session ended.
#[derive(Clone, Copy, Debug, PartialEq, Eq, Structural, Hash)]
pub enum Termination {
    /// The peer had sent nothing for longer than the inactivity timeout.
    Inactivity,
    /// The peer sent a handshake message after the handshake.
    ProtocolViolation,
    /// Bytes could not be read as a message, or a message not put into bytes.
    Malformed,
    /// The stream reported an error.
    StreamError,
    /// The stream ended.
    StreamClosed,
}

impl Termination {
    /// The error that the termination stands for, if it is one.
    pub open spec fn spec_error(self) -> Option<NetworkError> {
        match self {
            Termination::ProtocolViolation => Some(NetworkError::UnexpectedMessage),
            Termination::Malformed => Some(NetworkError::SerializationFailed),
            _ => None,
        }
    }

    /// The error that the termination stands for, if it is one: a silent peer,
    /// a failed stream and a closed stream end a session without one.
    #[verifier::when_used_as_spec(spec_error)]
    pub fn error(self) -> (error: Option<NetworkError>)
        ensures
            error == self.spec_error(),
    {
        match self {
            Termination::ProtocolViolation => Some(NetworkError::UnexpectedMessage),
            Termination::Malformed => Some(NetworkError::SerializationFailed),
            _ => None,
        }
    }
}

/// Whether a session still runs.
#[derive(Clone, Copy, Debug, PartialEq, Eq, Structural, Hash)]
pub enum SessionState {
    Active,
    Terminated(Termination),
}

/// What the driver reports to the session.
#[derive(Debug, PartialEq, Eq)]
pub enum SessionEvent {
    /// The node asked for this message to be sent to the peer; the driver took
    /// it off the peer's channel at the given time.
    Outbound(Message, u64),
    /// A frame arrived and was read as this message at the given time.
    Inbound(Message, u64),
    /// A frame arrived that is no message, or a message could not be put into
    /// bytes.
    Malformed,
    /// Reading from the stream or writing to it failed.
    StreamError,
    /// The stream ended.
    StreamClosed,
}

/// The mathematical value of a [`SessionEvent`].
pub enum SessionEventView {
    Outbound(MessageView, u64),
    Inbound(MessageView, u64),
    Malformed,
    StreamError,
    StreamClosed,
}

impl View for SessionEvent {
    type V = SessionEventView;

    open spec fn view(&self) -> SessionEventView {
        match *self {
            SessionEvent::Outbound(message, now) => SessionEventView::Outbound(message@, now),
            SessionEvent::Inbound(message, now) => SessionEventView::Inbound(message@, now),
            SessionEvent::Malformed => SessionEventView::Malformed,
            SessionEvent::StreamError => SessionEventView::StreamError,
            SessionEvent::StreamClosed => SessionEventView::StreamClosed,
        }
    }
}

/// What the session asks of the driver.
#[derive(Debug, PartialEq, Eq)]
pub enum SessionAction {
    /// Pause for the given number of milliseconds, then write the message to
    /// the stream. A pause of zero means at once.
    Send(Message, u64),
    /// Erase the registry entry of this address and stop: the session is over.
    Disconnect(PeerAddress, Termination),
    /// The session was over before the event came: there is nothing to do.
    Idle,
}

/// The mathematical value of a [`SessionAction`].
pub enum SessionActionView {
    Send(MessageView, u64),
    Disconnect(PeerAddress, Termination),
    Idle,
}

impl View for SessionAction {
    type V = SessionActionView;

    open spec fn view(&self) -> SessionActionView {
        match *self {
            SessionAction::Send(message, delay) => SessionActionView::Send(message@, delay),
            SessionAction::Disconnect(address, cause) => SessionActionView::Disconnect(
                address,
                cause,
            ),
            SessionAction::Idle => SessionActionView::Idle,
        }
    }
}

/// How long a peer last seen at `last_seen` has been silent at `now`. A clock
/// reading from before `last_seen` counts as no time at all.
pub open spec fn idle_time(last_seen: u64, now: u64) -> int {
    if now >= last_seen {
        now - last_seen
    } else {
        0
    }
}

/// The session of one admitted peer.
pub struct PeerSession {
    address: PeerAddress,
    last_seen: u64,
    state: SessionState,
}

/// The mathematical value of a [`PeerSession`].
pub struct PeerSessionView {
    /// The peer, under its listener port: the key of its registry entry.
    pub address: PeerAddress,
    /// When the last message of the peer was read.
    pub last_seen: u64,
    pub state: SessionState,
}

impl View for PeerSession {
    type V = PeerSessionView;

    closed spec fn view(&self) -> PeerSessionView {
        PeerSessionView { address: self.address, last_seen: self.last_seen, state: self.state }
    }
}

impl PeerSessionView {
    /// The session of a peer admitted at `now`.
    pub open spec fn admitted(address: PeerAddress, now: u64) -> PeerSessionView {
        PeerSessionView { address, last_seen: now, state: SessionState::Active }
    }

    /// Whether the peer has been silent for longer than the inactivity timeout.
    pub open spec fn is_silent(self, now: u64) -> bool {
        idle_time(self.last_seen, now) > INACTIVITY_TIMEOUT_MILLIS
    }

    /// The session with a message of the peer read at `now`.
    pub open spec fn seen(self, now: u64) -> PeerSessionView {
        PeerSessionView { address: self.address, last_seen: now, state: self.state }
    }

    /// The session ends.
    pub open spec fn terminate(self, cause: Termination) -> (PeerSessionView, SessionActionView) {
        (
            PeerSessionView {
                address: self.address,
                last_seen: self.last_seen,
                state: SessionState::Terminated(cause),
            },
            SessionActionView::Disconnect(self.address, cause),
        )
    }

    /// What a message of the peer calls for: a ping is answered with a pong at
    /// once, a pong with the next ping after the keepalive delay, and a
    /// handshake message ends the session.
    pub open spec fn dispatch(self, message: MessageView) -> (PeerSessionView, SessionActionView) {
        match message {
            MessageView::ChallengeRequest(..) => self.terminate(Termination::ProtocolViolation),
            MessageView::ChallengeResponse(..) => self.terminate(Termination::ProtocolViolation),
            MessageView::Ping(_) => (self, SessionActionView::Send(MessageView::Pong, 0)),
            MessageView::Pong => (
                self,
                SessionActionView::Send(
                    MessageView::Ping(KEEPALIVE_PING_HEIGHT),
                    KEEPALIVE_DELAY_MILLIS,
                ),
            ),
        }
    }

    /// The session after an event, and what the driver is to do next.
    ///
    /// A session that is over stays as it is. An outbound message is written
    /// unless the peer has been silent for too long, which ends the session.
    /// A message of the peer is recorded as seen, whatever it is, and then
    /// dispatched.
    pub open spec fn next(self, event: SessionEventView) -> (PeerSessionView, SessionActionView) {
        if self.state is Terminated {
            (self, SessionActionView::Idle)
        } else {
            match event {
                SessionEventView::Outbound(message, now) => if self.is_silent(now) {
                    self.terminate(Termination::Inactivity)
                } else {
                    (self, SessionActionView::Send(message, 0))
                },
                SessionEventView::Inbound(message, now) => self.seen(now).dispatch(message),
                SessionEventView::Malformed => self.terminate(Termination::Malformed),
                SessionEventView::StreamError => self.terminate(Termination::StreamError),
                SessionEventView::StreamClosed => self.terminate(Termination::StreamClosed),
            }
        }
    }

    /// The session after a sequence of events, and the actions asked for on the
    /// way, one for each event.
    pub open spec fn run(self, events: Seq<SessionEventView>) -> (
        PeerSessionView,
        Seq<SessionActionView>,
    )
        decreases events.len(),
    {
        if events.len() == 0 {
            (self, Seq::empty())
        } else {
            let (before, actions) = self.run(events.drop_last());
            let (after, action) = before.next(events.last());
            (after, actions.push(action))
        }
    }

    /// Whatever happens to a session, and in whatever order, it asks at most
    /// once for its registry entry to be erased: every action after a
    /// `Disconnect` is `Idle`. The entry it names is always the session's own,
    /// and a session that began active has ended if and only if it has asked.
    pub proof fn disconnects_once(self, events: Seq<SessionEventView>)
        ensures
            self.run(events).1.len() == events.len(),
            self.run(events).0.address == self.address,
            forall|i: int, j: int|
                0 <= i < j < events.len() && self.run(events).1[i] is Disconnect
                    ==> self.run(events).1[j] is Idle,
            forall|i: int|
                0 <= i < events.len() && #[trigger] self.run(events).1[i] is Disconnect
                    ==> self.run(events).1[i]->Disconnect_0 == self.address,
            self.state is Active ==> (self.run(events).0.state is Terminated <==> exists|i: int|
                0 <= i < events.len() && #[trigger] self.run(events).1[i] is Disconnect),
        decreases events.len(),
    {
        if events.len() > 0 {
            let earlier = events.drop_last();
            self.disconnects_once(earlier);
            self.lemma_idle_once_over(earlier);
            let (before, actions) = self.run(earlier);
            let (after, action) = before.next(events.last());
            let all = self.run(events).1;
            assert(all == actions.push(action));
            assert(forall|i: int| 0 <= i < earlier.len() ==> all[i] == actions[i]);
            if self.state is Active && after.state is Terminated {
                if before.state is Terminated {
                    let k = choose|k: int|
                        0 <= k < earlier.len() && #[trigger] actions[k] is Disconnect;
                    assert(all[k] is Disconnect);
                } else {
                    assert(all[earlier.len() as int] is Disconnect);
                }
            }
        }
    }

    /// Once a session is over it stays over, and before it is over it has not
    /// asked for anything but writes.
    proof fn lemma_idle_once_over(self, events: Seq<SessionEventView>)
        ensures
            self.state is Terminated ==> self.run(events).0 == self && forall|i: int|
                0 <= i < events.len() ==> #[trigger] self.run(events).1[i] is Idle,
            self.run(events).0.state is Active ==> self.state is Active && forall|i: int|
                0 <= i < events.len() ==> #[trigger] self.run(events).1[i] is Send,
            self.run(events).1.len() == events.len(),
        decreases events.len(),
    {
        if events.len() > 0 {
            self.lemma_idle_once_over(events.drop_last());
        }
    }
}

impl PeerSession {
    /// The session of a peer that the handshake has just admitted under
    /// `address`, at time `now`.
    pub fn new(address: PeerAddress, now: u64) -> (session: PeerSession)
        ensures
            session@ == PeerSessionView::admitted(address, now),
    {
        PeerSession { address, last_seen: now, state: SessionState::Active }
    }

    /// The peer's address, under its listener port.
    pub fn address(&self) -> (address: PeerAddress)
        ensures
            address == self@.address,
    {
        self.address
    }

    /// When the last message of the peer was read.
    pub fn last_seen(&self) -> (last_seen: u64)
        ensures
            last_seen == self@.last_seen,
    {
        self.last_seen
    }

    pub fn state(&self) -> (state: SessionState)
        ensures
            state == self@.state,
    {
        self.state
    }

    /// Whether the peer has been silent for longer than the inactivity timeout
    /// at `now`.
    pub fn is_silent(&self, now: u64) -> (silent: bool)
        ensures
            silent == self@.is_silent(now),
    {
        now >= self.last_seen && now - self.last_seen > INACTIVITY_TIMEOUT_MILLIS
    }

    fn terminate(&mut self, cause: Termination) -> (action: SessionAction)
        ensures
            (final(self)@, action@) == old(self)@.terminate(cause),
    {
        self.state = SessionState::Terminated(cause);
        SessionAction::Disconnect(self.address, cause)
    }

    /// Takes the next event and says what the driver is to do.
    pub fn step(&mut self, event: SessionEvent) -> (action: SessionAction)
        ensures
            (final(self)@, action@) == old(self)@.next(event@),
    {
        match self.state {
            SessionState::Terminated(_) => {
                return SessionAction::Idle;
            },
            SessionState::Active => {},
        }
        match event {
            SessionEvent::Outbound(message, now) => {
                if self.is_silent(now) {
                    self.terminate(Termination::Inactivity)
                } else {
                    SessionAction::Send(message, 0)
                }
            },
            SessionEvent::Inbound(message, now) => {
                self.last_seen = now;
                match message {
                    Message::ChallengeRequest(..) | Message::ChallengeResponse(..) => {
                        self.terminate(Termination::ProtocolViolation)
                    },
                    Message::Ping(_) => SessionAction::Send(Message::Pong, 0),
                    Message::Pong => SessionAction::Send(
                        Message::Ping(KEEPALIVE_PING_HEIGHT),
                        KEEPALIVE_DELAY_MILLIS,
                    ),
                }
            },
            SessionEvent::Malformed => self.terminate(Termination::Malformed),
            SessionEvent::StreamError => self.terminate(Termination::StreamError),
            SessionEvent::StreamClosed => self.terminate(Termination::StreamClosed),
        }
    }
}

impl RegistryView {
    /// Whether a handshake may be turned into a registry entry: it must have
    /// reached `Established`, and the registry must be able to take the address
    /// that it gave.
    pub open spec fn registers(self, handshake: HandshakeView) -> Result<(), NetworkError> {
        if handshake.state is Established {
            self.insertable(handshake.peer_ip)
        } else {
            Err(NetworkError::HandshakeIncomplete)
        }
    }
}

/// Where two sides that follow the script hold the same genesis header, the
/// registry of either gains exactly one entry by the handshake: the entry of the
/// other side, under its host and the listener port that it declared.
///
/// `ours` is the handshake of the side whose registry is looked at, `theirs`
/// that of the other, and `outbound` the sending end of the channel opened for
/// the other side. The registry is that of a node whose listener has bound, and
/// the other side is neither the node itself nor a peer that it holds already.
pub proof fn matching_sides_register_each_other(
    ours: HandshakeView,
    theirs: HandshakeView,
    registry: RegistryView,
    outbound: Outbound,
)
    requires
        ours.state is Start,
        theirs.state is Start,
        ours.genesis == theirs.genesis,
        ours.genesis.height == CHALLENGE_HEIGHT,
        ours.genesis.is_valid,
        registry.wf(),
        registry.local_address is Some,
        registry.local_address != Some(ours.peer_ip.with_port(theirs.local_port)),
        !registry.is_connected_to(ours.peer_ip.with_port(theirs.local_port)),
    ensures
        ({
            let end = ours.run(HandshakeView::exchange(theirs.script(ours.local_port))).0;
            let after = registry.insert(end.peer_ip, outbound);
            &&& end.peer_ip == ours.peer_ip.with_port(theirs.local_port)
            &&& registry.registers(end) is Ok
            &&& after.is_connected_to(end.peer_ip)
            &&& after.peers[end.peer_ip] == outbound
            &&& after.connection_count() == registry.connection_count() + 1
        }),
{
    HandshakeView::matching_sides_are_established(ours, theirs);
    insertion_adds_one_entry(registry, ours.peer_ip.with_port(theirs.local_port), outbound);
}

/// A counterparty whose every answer to the challenge is a header at the wrong
/// height, with other content than the genesis header, or not valid, gets no
/// registry entry: whatever else happens on the connection, its handshake is
/// refused by every registry, which then stays as it was.
pub proof fn wrong_header_makes_no_entry(
    start: HandshakeView,
    events: Seq<HandshakeEventView>,
    registry: RegistryView,
)
    requires
        start.state is Start,
        forall|i: int, header: BlockHeaderView|
            0 <= i < events.len() && events[i] == HandshakeEventView::Received(
                MessageView::ChallengeResponse(header),
            ) ==> !header.answers_challenge(start.genesis),
    ensures
        registry.registers(start.run(events).0) == Err::<(), NetworkError>(
            NetworkError::HandshakeIncomplete,
        ),
{
    start.wrong_header_is_never_admitted(events);
}

impl PeerRegistry {
    /// Admits the peer of a completed handshake: opens the peer's outbound
    /// channel, makes the registry entry that holds its sending end, under the
    /// address that the handshake gave, and begins the peer's session at time
    /// `now`. The session comes back with the receiving end of the channel.
    ///
    /// This is the only way in which an entry is made. A handshake that has not
    /// reached `Established` makes none, and the registry makes none before the
    /// listener has bound, nor under the node's own address; the registry then
    /// stays as it was, and no channel is opened. A sending end that the address
    /// had before is replaced, which closes the channel it belonged to once the
    /// last copy of it is gone.
    pub fn register(
        &mut self,
        handshake: Handshake,
        now: u64,
    ) -> (admitted: Result<(PeerSession, Router), NetworkError>)
        ensures
            final(self)@.wf(),
            match admitted {
                Ok((session, _)) => {
                    &&& old(self)@.registers(handshake@) is Ok
                    &&& final(self)@.is_connected_to(handshake@.peer_ip)
                    &&& final(self)@ == old(self)@.insert(
                        handshake@.peer_ip,
                        final(self)@.peers[handshake@.peer_ip],
                    )
                    &&& session@ == PeerSessionView::admitted(handshake@.peer_ip, now)
                },
                Err(error) => {
                    &&& old(self)@.registers(handshake@) == Err::<(), NetworkError>(error)
                    &&& final(self)@ == old(self)@
                },
            },
    {
        proof {
            use_type_invariant(&*self);
            self.lemma_wf();
        }
        let address = handshake.peer_ip();
        if !handshake.is_established() {
            return Err(NetworkError::HandshakeIncomplete);
        }
        match self.local_address() {
            Err(error) => Err(error),
            Ok(local) => {
                if address == local {
                    return Err(NetworkError::SelfConnectAttempt);
                }
                let (outbound, router) = open_channel(OUTBOUND_CHANNEL_CAPACITY);
                let _ = self.insert(address, outbound);
                Ok((PeerSession::new(address, now), router))
            },
        }
    }
}

} // verus!
