//! The outbound channel of a peer.
//!
//! The channel is tokio's bounded `mpsc` channel. What the node wants sent to a
//! peer is enqueued on the sending end, which the registry keeps; the peer's
//! task takes it off the receiving end. Both ends are opaque here: the one
//! thing known of a sending end is the capacity that its channel was made with,
//! [`channel_capacity`], and that is taken on trust.

use crate::message::Message;
use tokio::sync::mpsc::{channel, Receiver, Sender};
use vstd::prelude::*;

verus! {

/// `tokio::sync::mpsc::Sender`, made known to Verus as a type whose inside it
/// does not see.
#[verifier::external_type_specification]
#[verifier::external_body]
#[verifier::reject_recursive_types(T)]
pub struct ExSender<T>(Sender<T>);

/// `tokio::sync::mpsc::Receiver`, made known to Verus as a type whose inside it
/// does not see.
#[verifier::external_type_specification]
#[verifier::external_body]
#[verifier::reject_recursive_types(T)]
pub struct ExReceiver<T>(Receiver<T>);

/// The sending end of a peer's channel.
pub type Outbound = Sender<Message>;

/// The receiving end of a peer's channel.
pub type Router = Receiver<Message>;

/// How many messages the channel of a peer holds before a sender has to wait.
pub const OUTBOUND_CHANNEL_CAPACITY: usize = 1024;

/// The capacity that the channel of a sending end was made with: what
/// `Sender::max_capacity` returns for it.
pub uninterp spec fn channel_capacity(outbound: Sender<Message>) -> usize;

/// `tokio::sync::mpsc::channel`: a new channel, as its two ends, made with the
/// capacity that was asked for. The function panics on a capacity of zero and
/// on one beyond what a semaphore of tokio counts, which is `usize::MAX >> 3`:
/// neither is to be asked for.
#[verifier::external_body]
pub(crate) fn open_channel(capacity: usize) -> (ends: (Sender<Message>, Receiver<Message>))
    requires
        0 < capacity <= 0x1fff_ffff,
    ensures
        channel_capacity(ends.0) == capacity,
{
    channel(capacity)
}

} // verus!
