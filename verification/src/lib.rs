//! The peer-to-peer connection layer of a blockchain node, as verified logic.
//!
//! The crate holds the rules of the layer and none of its sockets: the registry
//! of admitted peers, the self-connection guard of the connector, admission
//! control, the challenge handshake and the keepalive session. Each decides;
//! none waits. A driver performs the actions that they return, on its sockets,
//! timers and tasks, and hands back what happened.
//!
//! Two things are not proved but taken on trust, each in a module of its own:
//! what the write-once cell of `once_cell` does ([`cell`]), and the capacity
//! that a channel of `tokio` is made with ([`channel`]).

pub mod address;
pub mod admission;
pub mod cell;
pub mod channel;
pub mod connector;
pub mod error;
pub mod handshake;
pub mod listener;
pub mod message;
pub mod registry;
pub mod session;
