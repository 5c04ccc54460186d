//! The messages that the connection layer itself reads and writes.
//!
//! A block header is known here by what the handshake reads of it: its height,
//! its bytes, and whether the ledger holds it valid. How a message is laid out
//! on the wire is not this crate's business.

use vstd::prelude::*;

verus! {

/// A block header as the handshake sees it.
#[derive(Debug, PartialEq, Eq)]
pub struct BlockHeader {
    /// The height of the block that the header belongs to.
    pub height: u32,
    /// The header in its canonical byte form. Two headers are the same header
    /// when their fields are equal, these bytes among them.
    pub payload: Vec<u8>,
    /// What the ledger's own validity check said of the header.
    pub is_valid: bool,
}

/// The mathematical value of a [`BlockHeader`].
pub struct BlockHeaderView {
    pub height: u32,
    pub payload: Seq<u8>,
    pub is_valid: bool,
}

impl View for BlockHeader {
    type V = BlockHeaderView;

    open spec fn view(&self) -> BlockHeaderView {
        BlockHeaderView { height: self.height, payload: self.payload@, is_valid: self.is_valid }
    }
}

impl Clone for BlockHeader {
    fn clone(&self) -> (copy: Self)
        ensures
            copy@ == self@,
    {
        BlockHeader {
            height: self.height,
            payload: self.payload.clone(),
            is_valid: self.is_valid,
        }
    }
}

impl BlockHeader {
    /// Whether two headers are the same header.
    pub fn same_as(&self, other: &BlockHeader) -> (same: bool)
        ensures
            same == (self@ == other@),
    {
        if self.height != other.height || self.is_valid != other.is_valid {
            return false;
        }
        if self.payload.len() != other.payload.len() {
            return false;
        }
        let mut i: usize = 0;
        while i < self.payload.len()
            invariant
                i <= self.payload.len(),
                self.payload.len() == other.payload.len(),
                forall|k: int| 0 <= k < i ==> self.payload@[k] == other.payload@[k],
            decreases self.payload.len() - i,
        {
            if self.payload[i] != other.payload[i] {
                return false;
            }
            i += 1;
        }
        assert(self.payload@ =~= other.payload@);
        true
    }
}

/// A message of the peer protocol.
#[derive(Debug, PartialEq, Eq)]
pub enum Message {
    /// Opens the handshake: the sender's listener port and the height of the
    /// block whose header it asks for.
    ChallengeRequest(u16, u32),
    /// Answers a challenge with a block header.
    ChallengeResponse(BlockHeader),
    /// Keepalive probe, with the sender's block height.
    Ping(u32),
    /// Keepalive answer.
    Pong,
}

/// The mathematical value of a [`Message`].
pub enum MessageView {
    ChallengeRequest(u16, u32),
    ChallengeResponse(BlockHeaderView),
    Ping(u32),
    Pong,
}

impl View for Message {
    type V = MessageView;

    open spec fn view(&self) -> MessageView {
        match *self {
            Message::ChallengeRequest(port, height) => MessageView::ChallengeRequest(port, height),
            Message::ChallengeResponse(header) => MessageView::ChallengeResponse(header@),
            Message::Ping(height) => MessageView::Ping(height),
            Message::Pong => MessageView::Pong,
        }
    }
}

impl Clone for Message {
    fn clone(&self) -> (copy: Self)
        ensures
            copy@ == self@,
    {
        match self {
            Message::ChallengeRequest(port, height) => Message::ChallengeRequest(*port, *height),
            Message::ChallengeResponse(header) => Message::ChallengeResponse(header.clone()),
            Message::Ping(height) => Message::Ping(*height),
            Message::Pong => Message::Pong,
        }
    }
}

impl MessageView {
    /// The name under which a message goes into the logs.
    pub open spec fn name(self) -> Seq<char> {
        match self {
            MessageView::ChallengeRequest(..) => "ChallengeRequest"@,
            MessageView::ChallengeResponse(..) => "ChallengeResponse"@,
            MessageView::Ping(..) => "Ping"@,
            MessageView::Pong => "Pong"@,
        }
    }
}

impl Message {
    /// The name under which the message goes into the logs.
    pub fn name(&self) -> (name: &'static str)
        ensures
            name@ == self@.name(),
    {
        match self {
            Message::ChallengeRequest(..) => "ChallengeRequest",
            Message::ChallengeResponse(..) => "ChallengeResponse",
            Message::Ping(..) => "Ping",
            Message::Pong => "Pong",
        }
    }
}

} // verus!
