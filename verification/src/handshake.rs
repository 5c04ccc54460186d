//! The challenge handshake that a connection must pass before it is admitted.
//!
//! Both sides run the same script: send a challenge request, answer the
//! counterparty's request with the genesis header, check the counterparty's
//! answer, pause, send the first ping. [`Handshake`] is that script as a state
//! machine. It owns no socket: the driver performs each [`HandshakeAction`] and
//! reports what came of it as the next [`HandshakeEvent`].

use crate::address::PeerAddress;
use crate::error::NetworkError;
use crate::message::{BlockHeader, BlockHeaderView, Message, MessageView};
use crate::registry::PeerRegistry;
use vstd::prelude::*;

verus! {

/// The height of the block whose header answers the challenge.
pub const CHALLENGE_HEIGHT: u32 = 0;

/// How long a side waits after it has accepted the counterparty's answer, so
/// that the counterparty can finish its own check, in milliseconds.
pub const SETTLE_DELAY_MILLIS: u64 = 1_000;

/// The height carried by the ping that closes the handshake.
pub const FIRST_PING_HEIGHT: u32 = 0;

impl BlockHeaderView {
    /// Whether the header is an acceptable answer to the challenge of a node
    /// with the given genesis header: it sits at the challenge height, it is
    /// that genesis header, and the ledger holds it valid.
    pub open spec fn answers_challenge(self, genesis: BlockHeaderView) -> bool {
        self.height == CHALLENGE_HEIGHT && self == genesis && self.is_valid
    }
}

/// Whether `candidate` is an acceptable answer to the challenge of a node whose
/// genesis header is `genesis`.
pub fn answers_challenge(candidate: &BlockHeader, genesis: &BlockHeader) -> (accepted: bool)
    ensures
        accepted == candidate@.answers_challenge(genesis@),
{
    candidate.height == CHALLENGE_HEIGHT && candidate.same_as(genesis) && candidate.is_valid
}

/// How far a handshake has come.
#[derive(Clone, Copy, Debug, PartialEq, Eq, Structural)]
pub enum HandshakeState {
    /// Nothing has been sent yet.
    Start,
    /// The challenge request is being written.
    SentChallengeRequest,
    /// Waiting for the counterparty's challenge request.
    AwaitingCounterpartyRequest,
    /// The answer to the counterparty's request is being written.
    SentChallengeResponse,
    /// Waiting for the counterparty's answer.
    AwaitingCounterpartyResponse,
    /// The counterparty's answer was accepted; the settling pause is running.
    Settling,
    /// The first ping is being written.
    SentFirstPing,
    /// The handshake is over and the peer is to be admitted.
    Established,
    /// The handshake is over and the connection is to be dropped.
    Failed(NetworkError),
}

/// What the driver reports to the handshake.
#[derive(Debug, PartialEq, Eq)]
pub enum HandshakeEvent {
    /// The stream is framed and ready.
    Ready,
    /// The message of the last [`HandshakeAction::Send`] has been written.
    Sent,
    /// A frame arrived and was read as this message.
    Received(Message),
    /// A frame arrived that is no message, or a message could not be put into
    /// bytes.
    Malformed,
    /// The stream reported an error.
    StreamError,
    /// The stream ended.
    Closed,
    /// The pause of the last [`HandshakeAction::Sleep`] is over.
    Elapsed,
}

/// The mathematical value of a [`HandshakeEvent`].
pub enum HandshakeEventView {
    Ready,
    Sent,
    Received(MessageView),
    Malformed,
    StreamError,
    Closed,
    Elapsed,
}

impl View for HandshakeEvent {
    type V = HandshakeEventView;

    open spec fn view(&self) -> HandshakeEventView {
        match *self {
            HandshakeEvent::Ready => HandshakeEventView::Ready,
            HandshakeEvent::Sent => HandshakeEventView::Sent,
            HandshakeEvent::Received(message) => HandshakeEventView::Received(message@),
            HandshakeEvent::Malformed => HandshakeEventView::Malformed,
            HandshakeEvent::StreamError => HandshakeEventView::StreamError,
            HandshakeEvent::Closed => HandshakeEventView::Closed,
            HandshakeEvent::Elapsed => HandshakeEventView::Elapsed,
        }
    }
}

/// What the handshake asks of the driver.
#[derive(Debug, PartialEq, Eq)]
pub enum HandshakeAction {
    /// Write this message to the stream, then report `Sent`.
    Send(Message),
    /// Wait for the next frame, then report it.
    Receive,
    /// Pause for this many milliseconds, then report `Elapsed`.
    Sleep(u64),
    /// Open the peer's outbound channel and enter it in the registry under this
    /// address. The handshake is over.
    Admit(PeerAddress),
    /// Drop the connection for this reason. The handshake is over.
    Abort(NetworkError),
    /// The handshake was over before the event came: there is nothing to do.
    Done,
}

/// The mathematical value of a [`HandshakeAction`].
pub enum HandshakeActionView {
    Send(MessageView),
    Receive,
    Sleep(u64),
    Admit(PeerAddress),
    Abort(NetworkError),
    Done,
}

impl View for HandshakeAction {
    type V = HandshakeActionView;

    open spec fn view(&self) -> HandshakeActionView {
        match *self {
            HandshakeAction::Send(message) => HandshakeActionView::Send(message@),
            HandshakeAction::Receive => HandshakeActionView::Receive,
            HandshakeAction::Sleep(millis) => HandshakeActionView::Sleep(millis),
            HandshakeAction::Admit(address) => HandshakeActionView::Admit(address),
            HandshakeAction::Abort(error) => HandshakeActionView::Abort(error),
            HandshakeAction::Done => HandshakeActionView::Done,
        }
    }
}

/// One side of a handshake over one connection.
pub struct Handshake {
    local_port: u16,
    genesis: BlockHeader,
    peer_ip: PeerAddress,
    state: HandshakeState,
}

/// The mathematical value of a [`Handshake`].
pub struct HandshakeView {
    /// The port on which this node listens.
    pub local_port: u16,
    /// This node's genesis header.
    pub genesis: BlockHeaderView,
    /// The counterparty: at first the address that the connection comes from,
    /// and from its challenge request on, its host under the listener port that
    /// it declared.
    pub peer_ip: PeerAddress,
    pub state: HandshakeState,
}

impl View for Handshake {
    type V = HandshakeView;

    closed spec fn view(&self) -> HandshakeView {
        HandshakeView {
            local_port: self.local_port,
            genesis: self.genesis@,
            peer_ip: self.peer_ip,
            state: self.state,
        }
    }
}

impl HandshakeView {
    /// A handshake that has not begun.
    pub open spec fn start(
        local_port: u16,
        genesis: BlockHeaderView,
        remote: PeerAddress,
    ) -> HandshakeView {
        HandshakeView { local_port, genesis, peer_ip: remote, state: HandshakeState::Start }
    }

    /// Whether the handshake has ended, well or badly.
    pub open spec fn is_over(self) -> bool {
        self.state is Established || self.state is Failed
    }

    /// The handshake moved to `state`.
    pub open spec fn at(self, state: HandshakeState) -> HandshakeView {
        HandshakeView {
            local_port: self.local_port,
            genesis: self.genesis,
            peer_ip: self.peer_ip,
            state,
        }
    }

    /// The handshake ends in failure.
    pub open spec fn fail(self, error: NetworkError) -> (HandshakeView, HandshakeActionView) {
        (self.at(HandshakeState::Failed(error)), HandshakeActionView::Abort(error))
    }

    /// What follows from a message of the counterparty.
    pub open spec fn receive(self, message: MessageView) -> (HandshakeView, HandshakeActionView) {
        match self.state {
            HandshakeState::AwaitingCounterpartyRequest => match message {
                MessageView::ChallengeRequest(listener_port, _) => (
                    HandshakeView {
                        local_port: self.local_port,
                        genesis: self.genesis,
                        peer_ip: self.peer_ip.with_port(listener_port),
                        state: HandshakeState::SentChallengeResponse,
                    },
                    HandshakeActionView::Send(MessageView::ChallengeResponse(self.genesis)),
                ),
                _ => self.fail(NetworkError::UnexpectedMessage),
            },
            HandshakeState::AwaitingCounterpartyResponse => match message {
                MessageView::ChallengeResponse(header) => if header.answers_challenge(
                    self.genesis,
                ) {
                    (
                        self.at(HandshakeState::Settling),
                        HandshakeActionView::Sleep(SETTLE_DELAY_MILLIS),
                    )
                } else {
                    self.fail(NetworkError::ChallengeRejected)
                },
                _ => self.fail(NetworkError::UnexpectedMessage),
            },
            _ => self.fail(NetworkError::UnexpectedMessage),
        }
    }

    /// The state after an event, and what the driver is to do next.
    ///
    /// A handshake that is over stays as it is. Before that, every event that
    /// the script does not expect at this point ends the handshake in failure:
    /// there are no retries.
    pub open spec fn next(self, event: HandshakeEventView) -> (HandshakeView, HandshakeActionView) {
        if self.is_over() {
            (self, HandshakeActionView::Done)
        } else {
            match event {
                HandshakeEventView::Ready => match self.state {
                    HandshakeState::Start => (
                        self.at(HandshakeState::SentChallengeRequest),
                        HandshakeActionView::Send(
                            MessageView::ChallengeRequest(self.local_port, CHALLENGE_HEIGHT),
                        ),
                    ),
                    _ => self.fail(NetworkError::HandshakeIncomplete),
                },
                HandshakeEventView::Sent => match self.state {
                    HandshakeState::SentChallengeRequest => (
                        self.at(HandshakeState::AwaitingCounterpartyRequest),
                        HandshakeActionView::Receive,
                    ),
                    HandshakeState::SentChallengeResponse => (
                        self.at(HandshakeState::AwaitingCounterpartyResponse),
                        HandshakeActionView::Receive,
                    ),
                    HandshakeState::SentFirstPing => (
                        self.at(HandshakeState::Established),
                        HandshakeActionView::Admit(self.peer_ip),
                    ),
                    _ => self.fail(NetworkError::HandshakeIncomplete),
                },
                HandshakeEventView::Received(message) => self.receive(message),
                HandshakeEventView::Elapsed => match self.state {
                    HandshakeState::Settling => (
                        self.at(HandshakeState::SentFirstPing),
                        HandshakeActionView::Send(MessageView::Ping(FIRST_PING_HEIGHT)),
                    ),
                    _ => self.fail(NetworkError::HandshakeIncomplete),
                },
                HandshakeEventView::Malformed => self.fail(NetworkError::SerializationFailed),
                HandshakeEventView::StreamError => self.fail(NetworkError::HandshakeIncomplete),
                HandshakeEventView::Closed => self.fail(NetworkError::HandshakeIncomplete),
            }
        }
    }

    /// The state after a sequence of events, and the actions asked for on the
    /// way, one for each event.
    pub open spec fn run(self, events: Seq<HandshakeEventView>) -> (
        HandshakeView,
        Seq<HandshakeActionView>,
    )
        decreases events.len(),
    {
        if events.len() == 0 {
            (self, Seq::empty())
        } else {
            let (before, actions) = self.run(events.drop_last());
            let (after, action) = before.next(events.last());
            (after, actions.push(action))
        }
    }
}

impl HandshakeActionView {
    /// How an action of one side reaches the other: a message that was sent
    /// arrives; anything else sends nothing, and the other side sees the stream
    /// end.
    pub open spec fn arrives_as(self) -> HandshakeEventView {
        match self {
            HandshakeActionView::Send(message) => HandshakeEventView::Received(message),
            _ => HandshakeEventView::Closed,
        }
    }
}

impl HandshakeView {
    /// What a side does, step by step, in an undisturbed handshake with a
    /// counterparty that listens on `their_port`.
    pub open spec fn script(self, their_port: u16) -> Seq<HandshakeActionView> {
        seq![
            HandshakeActionView::Send(
                MessageView::ChallengeRequest(self.local_port, CHALLENGE_HEIGHT),
            ),
            HandshakeActionView::Receive,
            HandshakeActionView::Send(MessageView::ChallengeResponse(self.genesis)),
            HandshakeActionView::Receive,
            HandshakeActionView::Sleep(SETTLE_DELAY_MILLIS),
            HandshakeActionView::Send(MessageView::Ping(FIRST_PING_HEIGHT)),
            HandshakeActionView::Admit(self.peer_ip.with_port(their_port)),
        ]
    }

    /// What a side sees when all its own writes succeed and the counterparty
    /// does what `theirs` lists: the counterparty's first and third action are
    /// its challenge request and its answer.
    pub open spec fn exchange(theirs: Seq<HandshakeActionView>) -> Seq<HandshakeEventView> {
        seq![
            HandshakeEventView::Ready,
            HandshakeEventView::Sent,
            theirs[0].arrives_as(),
            HandshakeEventView::Sent,
            theirs[2].arrives_as(),
            HandshakeEventView::Elapsed,
            HandshakeEventView::Sent,
        ]
    }

    /// Whether the handshake has not yet accepted an answer to its challenge.
    spec fn is_unconvinced(self) -> bool {
        !(self.state is Settling || self.state is SentFirstPing || self.state is Established)
    }

    proof fn lemma_run_push(self, events: Seq<HandshakeEventView>, event: HandshakeEventView)
        ensures
            self.run(events.push(event)) == (
                self.run(events).0.next(event).0,
                self.run(events).1.push(self.run(events).0.next(event).1),
            ),
    {
        assert(events.push(event).drop_last() =~= events);
    }

    proof fn lemma_script_against(self, their_port: u16, theirs: Seq<HandshakeActionView>)
        requires
            self.state is Start,
            self.genesis.height == CHALLENGE_HEIGHT,
            self.genesis.is_valid,
            theirs.len() == 7,
            theirs[0] == HandshakeActionView::Send(
                MessageView::ChallengeRequest(their_port, CHALLENGE_HEIGHT),
            ),
            theirs[2] == HandshakeActionView::Send(MessageView::ChallengeResponse(self.genesis)),
        ensures
            self.run(Self::exchange(theirs)) == (
                HandshakeView {
                    local_port: self.local_port,
                    genesis: self.genesis,
                    peer_ip: self.peer_ip.with_port(their_port),
                    state: HandshakeState::Established,
                },
                self.script(their_port),
            ),
    {
        let events = Self::exchange(theirs);
        let e0 = Seq::<HandshakeEventView>::empty();
        let e1 = e0.push(events[0]);
        let e2 = e1.push(events[1]);
        let e3 = e2.push(events[2]);
        let e4 = e3.push(events[3]);
        let e5 = e4.push(events[4]);
        let e6 = e5.push(events[5]);
        let e7 = e6.push(events[6]);
        assert(e7 =~= events);
        assert(self.run(e0) == (self, Seq::<HandshakeActionView>::empty()));
        self.lemma_run_push(e0, events[0]);
        self.lemma_run_push(e1, events[1]);
        self.lemma_run_push(e2, events[2]);
        self.lemma_run_push(e3, events[3]);
        self.lemma_run_push(e4, events[4]);
        self.lemma_run_push(e5, events[5]);
        self.lemma_run_push(e6, events[6]);
        assert(self.run(e7).1 =~= self.script(their_port));
    }

    /// Two sides that follow the script and hold the same genesis header both
    /// reach `Established`, and each asks for exactly one registry entry: the
    /// last of its actions, under the other side's host and the listener port
    /// that the other side declared, whatever port the connection came from.
    ///
    /// Each side is run against what the other side's script sends. The genesis
    /// header is taken to be what a genesis header is: valid, and at the
    /// challenge height.
    pub proof fn matching_sides_are_established(a: HandshakeView, b: HandshakeView)
        requires
            a.state is Start,
            b.state is Start,
            a.genesis == b.genesis,
            a.genesis.height == CHALLENGE_HEIGHT,
            a.genesis.is_valid,
        ensures
            a.run(Self::exchange(b.script(a.local_port))) == (
                HandshakeView {
                    local_port: a.local_port,
                    genesis: a.genesis,
                    peer_ip: a.peer_ip.with_port(b.local_port),
                    state: HandshakeState::Established,
                },
                a.script(b.local_port),
            ),
            b.run(Self::exchange(a.script(b.local_port))) == (
                HandshakeView {
                    local_port: b.local_port,
                    genesis: b.genesis,
                    peer_ip: b.peer_ip.with_port(a.local_port),
                    state: HandshakeState::Established,
                },
                b.script(a.local_port),
            ),
    {
        a.lemma_script_against(b.local_port, b.script(a.local_port));
        b.lemma_script_against(a.local_port, a.script(b.local_port));
    }

    /// There are no retries and no second entries: whatever is reported to a
    /// handshake, and in whatever order, it asks at most once for a registry
    /// entry, and once it has asked for one or has failed, every further action
    /// is `Done`. It has asked if and only if it has reached `Established`, and
    /// the address it asked for is the one it ends with.
    pub proof fn asks_once_for_an_entry(self, events: Seq<HandshakeEventView>)
        requires
            !self.is_over(),
        ensures
            self.run(events).1.len() == events.len(),
            forall|i: int, j: int|
                0 <= i < j < events.len() && (self.run(events).1[i] is Admit || self.run(
                    events,
                ).1[i] is Abort) ==> self.run(events).1[j] is Done,
            forall|i: int|
                0 <= i < events.len() && #[trigger] self.run(events).1[i] is Admit
                    ==> self.run(events).1[i] == HandshakeActionView::Admit(
                    self.run(events).0.peer_ip,
                ),
            self.run(events).0.state is Established <==> exists|i: int|
                0 <= i < events.len() && #[trigger] self.run(events).1[i] is Admit,
            self.run(events).0.state is Failed <==> exists|i: int|
                0 <= i < events.len() && #[trigger] self.run(events).1[i] is Abort,
        decreases events.len(),
    {
        if events.len() > 0 {
            let earlier = events.drop_last();
            self.asks_once_for_an_entry(earlier);
            let (before, actions) = self.run(earlier);
            let (after, action) = before.next(events.last());
            let all = self.run(events).1;
            let n = earlier.len() as int;
            assert(all == actions.push(action));
            assert(forall|i: int| 0 <= i < n ==> all[i] == actions[i]);
            assert(all[n] == action);
            if before.state is Established {
                let k = choose|k: int| 0 <= k < n && #[trigger] actions[k] is Admit;
                assert(all[k] is Admit);
            }
            if before.state is Failed {
                let k = choose|k: int| 0 <= k < n && #[trigger] actions[k] is Abort;
                assert(all[k] is Abort);
            }
            if !before.is_over() {
                assert(forall|i: int| 0 <= i < n ==> !(all[i] is Admit) && !(all[i] is Abort));
            }
        }
    }

    /// A counterparty whose every answer to the challenge is a header at the
    /// wrong height, with other content than the genesis header, or not valid,
    /// is never admitted: whatever else happens on the connection, the handshake
    /// does not reach `Established` and never asks for a registry entry.
    pub proof fn wrong_header_is_never_admitted(self, events: Seq<HandshakeEventView>)
        requires
            self.state is Start,
            forall|i: int, header: BlockHeaderView|
                0 <= i < events.len() && events[i] == HandshakeEventView::Received(
                    MessageView::ChallengeResponse(header),
                ) ==> !header.answers_challenge(self.genesis),
        ensures
            !(self.run(events).0.state is Established),
            forall|i: int|
                0 <= i < events.len() ==> !(#[trigger] self.run(events).1[i] is Admit),
    {
        self.lemma_unconvinced(events);
    }

    proof fn lemma_unconvinced(self, events: Seq<HandshakeEventView>)
        requires
            self.is_unconvinced(),
            forall|i: int, header: BlockHeaderView|
                0 <= i < events.len() && events[i] == HandshakeEventView::Received(
                    MessageView::ChallengeResponse(header),
                ) ==> !header.answers_challenge(self.genesis),
        ensures
            self.run(events).0.is_unconvinced(),
            self.run(events).0.genesis == self.genesis,
            self.run(events).1.len() == events.len(),
            forall|i: int|
                0 <= i < events.len() ==> !(#[trigger] self.run(events).1[i] is Admit),
        decreases events.len(),
    {
        if events.len() > 0 {
            let earlier = events.drop_last();
            assert forall|i: int, header: BlockHeaderView|
                0 <= i < earlier.len() && earlier[i] == HandshakeEventView::Received(
                    MessageView::ChallengeResponse(header),
                ) implies !header.answers_challenge(self.genesis) by {
                assert(earlier[i] == events[i]);
            }
            self.lemma_unconvinced(earlier);
            let before = self.run(earlier).0;
            let last = events.last();
            assert(last == events[events.len() - 1]);
            match last {
                HandshakeEventView::Received(MessageView::ChallengeResponse(header)) => {
                    assert(!header.answers_challenge(before.genesis));
                },
                _ => {},
            }
        }
    }
}

impl Handshake {
    /// A handshake that has not begun, for a connection that comes from
    /// `remote`, on a node that listens on `local_port` and whose genesis
    /// header is `genesis`.
    pub fn new(local_port: u16, genesis: BlockHeader, remote: PeerAddress) -> (handshake: Handshake)
        ensures
            handshake@ == HandshakeView::start(local_port, genesis@, remote),
    {
        Handshake { local_port, genesis, peer_ip: remote, state: HandshakeState::Start }
    }

    pub fn state(&self) -> (state: HandshakeState)
        ensures
            state == self@.state,
    {
        self.state
    }

    /// The address of the counterparty as far as it is known.
    pub fn peer_ip(&self) -> (peer_ip: PeerAddress)
        ensures
            peer_ip == self@.peer_ip,
    {
        self.peer_ip
    }

    pub fn is_established(&self) -> (established: bool)
        ensures
            established == (self@.state is Established),
    {
        match self.state {
            HandshakeState::Established => true,
            _ => false,
        }
    }

    fn fail(&mut self, error: NetworkError) -> (action: HandshakeAction)
        ensures
            (final(self)@, action@) == old(self)@.fail(error),
    {
        self.state = HandshakeState::Failed(error);
        HandshakeAction::Abort(error)
    }

    fn receive(&mut self, message: Message) -> (action: HandshakeAction)
        ensures
            (final(self)@, action@) == old(self)@.receive(message@),
    {
        match self.state {
            HandshakeState::AwaitingCounterpartyRequest => match message {
                Message::ChallengeRequest(listener_port, _) => {
                    self.peer_ip.set_port(listener_port);
                    self.state = HandshakeState::SentChallengeResponse;
                    HandshakeAction::Send(Message::ChallengeResponse(self.genesis.clone()))
                },
                _ => self.fail(NetworkError::UnexpectedMessage),
            },
            HandshakeState::AwaitingCounterpartyResponse => match message {
                Message::ChallengeResponse(header) => {
                    if answers_challenge(&header, &self.genesis) {
                        self.state = HandshakeState::Settling;
                        HandshakeAction::Sleep(SETTLE_DELAY_MILLIS)
                    } else {
                        self.fail(NetworkError::ChallengeRejected)
                    }
                },
                _ => self.fail(NetworkError::UnexpectedMessage),
            },
            _ => self.fail(NetworkError::UnexpectedMessage),
        }
    }

    /// Takes the next event and says what the driver is to do.
    pub fn step(&mut self, event: HandshakeEvent) -> (action: HandshakeAction)
        ensures
            (final(self)@, action@) == old(self)@.next(event@),
    {
        match self.state {
            HandshakeState::Established | HandshakeState::Failed(_) => {
                return HandshakeAction::Done;
            },
            _ => {},
        }
        match event {
            HandshakeEvent::Ready => match self.state {
                HandshakeState::Start => {
                    self.state = HandshakeState::SentChallengeRequest;
                    HandshakeAction::Send(
                        Message::ChallengeRequest(self.local_port, CHALLENGE_HEIGHT),
                    )
                },
                _ => self.fail(NetworkError::HandshakeIncomplete),
            },
            HandshakeEvent::Sent => match self.state {
                HandshakeState::SentChallengeRequest => {
                    self.state = HandshakeState::AwaitingCounterpartyRequest;
                    HandshakeAction::Receive
                },
                HandshakeState::SentChallengeResponse => {
                    self.state = HandshakeState::AwaitingCounterpartyResponse;
                    HandshakeAction::Receive
                },
                HandshakeState::SentFirstPing => {
                    self.state = HandshakeState::Established;
                    HandshakeAction::Admit(self.peer_ip)
                },
                _ => self.fail(NetworkError::HandshakeIncomplete),
            },
            HandshakeEvent::Received(message) => self.receive(message),
            HandshakeEvent::Elapsed => match self.state {
                HandshakeState::Settling => {
                    self.state = HandshakeState::SentFirstPing;
                    HandshakeAction::Send(Message::Ping(FIRST_PING_HEIGHT))
                },
                _ => self.fail(NetworkError::HandshakeIncomplete),
            },
            HandshakeEvent::Malformed => self.fail(NetworkError::SerializationFailed),
            HandshakeEvent::StreamError => self.fail(NetworkError::HandshakeIncomplete),
            HandshakeEvent::Closed => self.fail(NetworkError::HandshakeIncomplete),
        }
    }
}

impl PeerRegistry {
    /// Begins the handshake for a connection that comes from `remote`, on a
    /// node whose genesis header is `genesis`. The node must know its own
    /// address by now: the handshake opens with that address's port.
    pub fn handshake(
        &self,
        genesis: BlockHeader,
        remote: PeerAddress,
    ) -> (handshake: Result<Handshake, NetworkError>)
        ensures
            match handshake {
                Ok(handshake) => self@.local_address matches Some(local) && handshake@
                    == HandshakeView::start(local.port, genesis@, remote),
                Err(error) => self@.local_address is None && error
                    == NetworkError::LocalAddressUnknown,
            },
    {
        match self.local_address() {
            Ok(local) => Ok(Handshake::new(local.port(), genesis, remote)),
            Err(error) => Err(error),
        }
    }
}

} // verus!
