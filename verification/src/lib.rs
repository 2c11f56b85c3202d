//! Peer discovery and acknowledged delivery for a two-player turn game on a
//! local network, over a connectionless transport that may lose, repeat or
//! mix up datagrams.
//!
//! The crate performs no socket I/O itself.  Whatever has to wait for the
//! network is a small state machine: it asks for one action at a time, the
//! caller carries the action out and reports what happened.
//!
//! - [`packet`]: the wire frame and its codec, on top of [`frame`] and
//!   [`buffer`].
//! - [`sequence`]: packet identifiers.
//! - [`transport`]: where datagrams go and what a receive attempt amounts to.
//! - [`action`]: what the machines ask for and what they are told.
//! - [`delivery`]: sending with retries, and waiting with a deadline.
//! - [`session`]: finding a peer, settling who moves first, exchanging moves.
//! - [`board`] and [`input`]: the game itself.
//! - [`clock`] and [`text`]: the system clock and string building.

pub mod action;
pub mod board;
pub mod buffer;
pub mod clock;
pub mod delivery;
pub mod frame;
pub mod input;
pub mod packet;
pub mod sequence;
pub mod session;
pub mod text;
pub mod transport;
