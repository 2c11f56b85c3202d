//! The vocabulary between the protocol and whoever owns the socket.
//!
//! The protocol never waits.  It asks for one [`Action`] at a time; the caller
//! carries the action out and reports the matching [`Event`], upon which the
//! protocol asks for the next action.

use crate::frame::Frame;
use crate::packet::{frame_packet, Packet};
use crate::transport::{Endpoint, TransportError};
use vstd::prelude::*;

verus! {

/// The state of the game as the game logic sees it after a move.
#[derive(Clone, Copy, Debug, PartialEq, Eq, Structural)]
pub enum Verdict {
    /// The game goes on.
    Open,
    /// The local player has won.
    LocalWins,
    /// The remote player has won.
    RemoteWins,
    /// No cell is left and nobody has won.
    Draw,
}

/// What the protocol asks its caller to do next.
#[derive(Debug, PartialEq, Eq)]
pub enum Action {
    /// Bind the socket to `port` on every local address (port zero stands
    /// for any free port), allow broadcasts on it and make it non-blocking.
    Open { port: u16 },
    /// Fix `peer` as the only address that unicasts go to and datagrams are
    /// taken from.
    Connect { peer: Endpoint },
    /// Send `bytes` as one datagram: to the well-known port on the broadcast
    /// address of every local interface, or to the fixed peer.
    Transmit { bytes: Vec<u8>, broadcast: bool },
    /// Make one non-blocking receive attempt.
    Receive,
    /// Let `millis` milliseconds pass.
    Sleep { millis: u64 },
    /// Ask the game logic for the local player's move and apply it.
    ChooseMove,
    /// Hand the remote player's move to the game logic.
    ApplyMove { row: u16, column: u16 },
    /// Nothing: the machine that was asked has come to its end.
    Stop,
}

/// [`Action`] as a mathematical value.
pub enum ActionView {
    Open { port: u16 },
    Connect { peer: Endpoint },
    Transmit { bytes: Seq<u8>, broadcast: bool },
    Receive,
    Sleep { millis: u64 },
    ChooseMove,
    ApplyMove { row: u16, column: u16 },
    Stop,
}

impl View for Action {
    type V = ActionView;

    open spec fn view(&self) -> ActionView {
        match *self {
            Action::Open { port } => ActionView::Open { port },
            Action::Connect { peer } => ActionView::Connect { peer },
            Action::Transmit { bytes, broadcast } => ActionView::Transmit {
                bytes: bytes@,
                broadcast,
            },
            Action::Receive => ActionView::Receive,
            Action::Sleep { millis } => ActionView::Sleep { millis },
            Action::ChooseMove => ActionView::ChooseMove,
            Action::ApplyMove { row, column } => ActionView::ApplyMove { row, column },
            Action::Stop => ActionView::Stop,
        }
    }
}

/// What the caller reports after it has carried out an action.
pub enum Event {
    /// The socket was opened, the peer fixed, the datagram sent or the time
    /// slept, as asked.
    Completed,
    /// The action failed with a transport error.
    Failed(TransportError),
    /// The receive attempt gave this frame from this sender; the frame is
    /// empty if nothing was queued.
    Received(Frame, Endpoint),
    /// The local player has moved to `(row, column)`, after which the game
    /// stands as `verdict` says.
    Moved { row: usize, column: usize, verdict: Verdict },
    /// The remote player's move was applied, after which the game stands as
    /// `verdict` says.
    Applied { verdict: Verdict },
    /// The game logic refused the remote player's move: the cell it names
    /// is claimed already.
    Refused,
}

/// What a received frame turned out to be.
#[derive(Clone, Copy, Debug, PartialEq, Eq)]
pub enum Reading {
    /// Nothing was received.
    Silence,
    /// Bytes that are no frame.  Strangers share the broadcast port, so this
    /// is no error.
    Noise,
    /// A packet.
    Heard(Packet),
}

/// What the frame of a receive attempt amounts to: silence if it holds no
/// byte, the packet its unread bytes stand for if they are a frame, and noise
/// otherwise.
pub open spec fn reading(frame: Frame) -> Reading {
    if frame.data().len() == 0 {
        Reading::Silence
    } else {
        match frame_packet(frame) {
            Some(packet) => Reading::Heard(packet),
            None => Reading::Noise,
        }
    }
}

/// Examines the frame of a receive attempt.
pub fn read(frame: Frame) -> (result: Reading)
    ensures
        result == reading(frame),
{
    let mut frame = frame;
    if frame.is_empty() {
        return Reading::Silence;
    }
    let mut packet = Packet::ack(0);
    if packet.parse(&mut frame) {
        Reading::Heard(packet)
    } else {
        Reading::Noise
    }
}

} // verus!
