//! The session between two peers: how they find each other, who moves first,
//! and the exchange of moves until the game is over or the peer falls silent.
//!
//! A session begins unconfirmed.  It is confirmed once, either because a peer
//! answered our `Ping` (we are then the initiator and move first) or because
//! we answered a peer's `Ping` (we are then the responder).  If neither
//! happens within the time allowed, the session ends with the advice to play
//! without the network.

use crate::action::{Action, ActionView, Event, Verdict};
use crate::board::{Board, Player, BOARD_SIZE};
use crate::clock::get_time;
use crate::delivery::{
    deadline, deadline_after, DeliveryError, ExchangePhase, Expect, PendingExchange, Wait,
    WaitPhase,
};
use crate::packet::{wire_bytes, Opcode, Packet};
use crate::sequence::{issued, SequenceGenerator};
use crate::transport::{Endpoint, Transport, LAN_PORT, LOOPBACK};
use vstd::prelude::*;

verus! {

/// How long, in milliseconds, a peer's `Ping` is waited for, and a peer's
/// move.
pub const TIMEOUT: u128 = 30000;

/// The part a peer plays in a confirmed session.
#[derive(Clone, Copy, Debug, PartialEq, Eq, Structural)]
pub enum Role {
    /// The peer whose `Ping` was answered.  It plays `x` and moves first.
    Initiator,
    /// The peer that answered.  It plays `o`.
    Responder,
}

impl Role {
    /// The player this peer is on the board: the initiator is the player who
    /// moves first.
    pub open spec fn spec_player(self) -> Player {
        match self {
            Role::Initiator => Player::X,
            Role::Responder => Player::O,
        }
    }

    /// The player this peer is on the board.
    #[verifier::when_used_as_spec(spec_player)]
    pub fn player(self) -> (player: Player)
        ensures
            player == self.spec_player(),
    {
        match self {
            Role::Initiator => Player::X,
            Role::Responder => Player::O,
        }
    }
}

/// How a session ended.
#[derive(Clone, Copy, Debug, PartialEq, Eq, Structural)]
pub enum Outcome {
    /// No peer was found: the game is to be played without the network.
    /// `cause` is what ended the last attempt to find one.
    Fallback { cause: DeliveryError },
    /// The local player won.
    WinLocal,
    /// The remote player won.
    WinRemote,
    /// The board filled up and nobody won.
    Draw,
    /// The peer did not acknowledge our move, or did not move in time.
    Disconnected { cause: DeliveryError },
}

/// One of the two sides of a session.
#[derive(Clone, Copy, Debug, PartialEq, Eq, Structural)]
pub enum Side {
    /// This process.
    Local,
    /// The peer.
    Remote,
}

impl Outcome {
    /// The side that lost, if any did: the other side of a win, and the
    /// local side of a disconnect, since a peer that falls silent cannot be
    /// told from one that we fail to reach.
    pub open spec fn spec_loser(self) -> Option<Side> {
        match self {
            Outcome::WinLocal => Some(Side::Remote),
            Outcome::WinRemote => Some(Side::Local),
            Outcome::Disconnected { .. } => Some(Side::Local),
            Outcome::Draw => None,
            Outcome::Fallback { .. } => None,
        }
    }

    /// The side that lost, if any did.
    #[verifier::when_used_as_spec(spec_loser)]
    pub fn loser(self) -> (side: Option<Side>)
        ensures
            side == self.spec_loser(),
    {
        match self {
            Outcome::WinLocal => Some(Side::Remote),
            Outcome::WinRemote => Some(Side::Local),
            Outcome::Disconnected { .. } => Some(Side::Local),
            Outcome::Draw => None,
            Outcome::Fallback { .. } => None,
        }
    }
}

/// Where a session stands.
#[derive(Clone, Copy, Debug, PartialEq, Eq)]
pub enum Stage {
    /// Opening the socket on `port` has been asked for.
    Opening { port: u16 },
    /// The well-known port was taken, so a peer may live on this machine:
    /// fixing the loopback address as the peer has been asked for.
    Linking,
    /// Our `Ping` is under way.
    Probing { exchange: PendingExchange },
    /// Nobody answered: a peer's `Ping` is waited for.
    Accepting { wait: Wait },
    /// A `Ping` numbered `number` came from `peer`, and fixing `peer` as the
    /// peer has been asked for.
    Admitting { peer: Endpoint, number: u16 },
    /// Sending the `Ack` for the `Ping` has been asked for.
    Greeting { peer: Endpoint, number: u16 },
    /// It is our turn: the local move has been asked for.
    Choosing,
    /// Our move is under way; after it the game stands as `verdict` says.
    Moving { exchange: PendingExchange, verdict: Verdict },
    /// It is the peer's turn: its move is waited for.
    Listening { wait: Wait },
    /// The peer's move `(row, column)` has come in a packet numbered
    /// `number`, and sending the `Ack` for it has been asked for.  The wait
    /// for the move was to end at `deadline`.
    Answering { number: u16, row: u16, column: u16, deadline: u128 },
    /// Applying the peer's move has been asked for.  The wait for the move
    /// was to end at `deadline`.
    Applying { row: u16, column: u16, deadline: u128 },
    /// The session has ended.
    Over { outcome: Outcome },
}

/// The connectivity state of one game.
#[derive(Clone, Copy, Debug, PartialEq, Eq)]
pub struct Session {
    /// Our part.  It is settled when the session is confirmed.
    pub role: Role,
    /// The peer, from the moment the session is confirmed.
    pub peer: Option<Endpoint>,
    /// The socket as the session has had it set up: whether it settled for
    /// another port than the well-known one, and the address it is fixed to.
    pub transport: Transport,
    /// The packet that brought the peer's latest move, once one has been
    /// taken.  A packet that repeats it in number, row and column is a
    /// repeat of that move and is not taken again.
    pub last_move: Option<Packet>,
    /// Where the session stands.
    pub stage: Stage,
}

/// The session outcome that a verdict of the game logic amounts to, if the
/// verdict ends the game.
pub open spec fn concluded(verdict: Verdict) -> Option<Outcome> {
    match verdict {
        Verdict::Open => None,
        Verdict::LocalWins => Some(Outcome::WinLocal),
        Verdict::RemoteWins => Some(Outcome::WinRemote),
        Verdict::Draw => Some(Outcome::Draw),
    }
}

/// The session outcome that a verdict of the game logic amounts to, if the
/// verdict ends the game.
#[verifier::when_used_as_spec(concluded)]
pub fn conclude(verdict: Verdict) -> (outcome: Option<Outcome>)
    ensures
        outcome == concluded(verdict),
{
    match verdict {
        Verdict::Open => None,
        Verdict::LocalWins => Some(Outcome::WinLocal),
        Verdict::RemoteWins => Some(Outcome::WinRemote),
        Verdict::Draw => Some(Outcome::Draw),
    }
}

/// Whether `packet` carries a move that lies on the board.
pub open spec fn on_board(packet: Packet) -> bool {
    packet.data matches Some((row, column)) && row < BOARD_SIZE && column < BOARD_SIZE
}

/// The `Ping` numbered `number`.
pub open spec fn ping(number: u16) -> Packet {
    Packet { opcode: Opcode::Ping, number, data: None }
}

/// The `Ack` that answers a packet numbered `number`.
pub open spec fn ack(number: u16) -> Packet {
    Packet { opcode: Opcode::Ack, number, data: None }
}

/// The `Data` packet numbered `number` for the move `(row, column)`, each
/// coordinate cut to 16 bits.
pub open spec fn move_packet(row: usize, column: usize, number: u16) -> Packet {
    Packet {
        opcode: Opcode::Data,
        number,
        data: Some(((row % 65536) as u16, (column % 65536) as u16)),
    }
}

impl Session {
    /// A new session: unconfirmed, and asking for the socket to be opened on
    /// the well-known port.
    pub open spec fn started() -> Session {
        Session {
            role: Role::Initiator,
            peer: None,
            transport: Transport { peer: None, local_only: false },
            last_move: None,
            stage: Stage::Opening { port: LAN_PORT },
        }
    }

    /// Whether a peer has been confirmed.
    pub open spec fn confirmed(self) -> bool {
        self.peer is Some
    }

    /// The session when the wait for a peer's `Ping` stands as `wait` says: a
    /// `Ping` that came leads to fixing its sender as the peer, a wait that
    /// failed to the end of the session without a peer.
    pub open spec fn accepting(self, wait: Wait) -> Session {
        match wait.phase {
            WaitPhase::Matched { packet, sender } => Session {
                stage: Stage::Admitting { peer: sender, number: packet.number },
                ..self
            },
            WaitPhase::Failed { error } => Session {
                stage: Stage::Over { outcome: Outcome::Fallback { cause: error } },
                ..self
            },
            _ => Session { stage: Stage::Accepting { wait }, ..self },
        }
    }

    /// The session when our `Ping` stands as `exchange` says at time `now`:
    /// once it is acknowledged the session is confirmed, we are the initiator
    /// and it is our turn; once it has failed, a peer's `Ping` is waited for
    /// until `TIMEOUT` milliseconds from `now`.  The peer is the answerer of
    /// a broadcast, which the socket was fixed to on the way, and otherwise
    /// the address the socket was fixed to before the `Ping` went out.
    pub open spec fn probing(self, exchange: PendingExchange, now: u128) -> Session {
        match exchange.phase {
            ExchangePhase::Delivered { responder } => match responder {
                Some(peer) => Session {
                    role: Role::Initiator,
                    peer: Some(peer),
                    transport: Transport { peer: Some(peer), ..self.transport },
                    stage: Stage::Choosing,
                    ..self
                },
                None => Session {
                    role: Role::Initiator,
                    peer: self.transport.peer,
                    stage: Stage::Choosing,
                    ..self
                },
            },
            ExchangePhase::Failed { error } => self.accepting(
                Wait::started(Expect::Only(Opcode::Ping), deadline_after(now, TIMEOUT), now),
            ),
            _ => Session { stage: Stage::Probing { exchange }, ..self },
        }
    }

    /// The session when our move stands as `exchange` says at time `now`:
    /// once it is acknowledged the game is over if `verdict` says so and
    /// otherwise the peer's move is waited for until `TIMEOUT` milliseconds
    /// from `now`; once it has failed the session is over.
    pub open spec fn moving(
        self,
        exchange: PendingExchange,
        verdict: Verdict,
        now: u128,
    ) -> Session {
        match exchange.phase {
            ExchangePhase::Delivered { .. } => match concluded(verdict) {
                Some(outcome) => Session { stage: Stage::Over { outcome }, ..self },
                None => self.listening(
                    Wait::started(Expect::Only(Opcode::Data), deadline_after(now, TIMEOUT), now),
                    now,
                ),
            },
            ExchangePhase::Failed { error } => Session {
                stage: Stage::Over { outcome: Outcome::Disconnected { cause: error } },
                ..self
            },
            _ => Session { stage: Stage::Moving { exchange, verdict }, ..self },
        }
    }

    /// Whether `packet` repeats the move taken last: it has the same number
    /// and names the same cell.
    pub open spec fn repeats(self, packet: Packet) -> bool {
        self.last_move matches Some(last) && last.number == packet.number && last.data
            == packet.data
    }

    /// Whether `packet` brings a new move of the peer: a move that lies on
    /// the board and does not repeat the move taken last.  A packet that
    /// names another cell than the move taken last is a new move whatever
    /// its number.
    pub open spec fn takes(self, packet: Packet) -> bool {
        on_board(packet) && !self.repeats(packet)
    }

    /// The session when the wait for the peer's move stands as `wait` says at
    /// time `now`: a new move on the board is taken and is to be
    /// acknowledged; a `Data` packet that repeats the move taken last, or
    /// that holds no move on the board, is passed over and the wait goes on
    /// to its deadline; a wait that failed ends the session.
    pub open spec fn listening(self, wait: Wait, now: u128) -> Session {
        match wait.phase {
            WaitPhase::Matched { packet, sender } => match packet.data {
                Some((row, column)) if self.takes(packet) => Session {
                    last_move: Some(packet),
                    stage: Stage::Answering {
                        number: packet.number,
                        row,
                        column,
                        deadline: wait.deadline,
                    },
                    ..self
                },
                _ => if now < wait.deadline {
                    Session {
                        stage: Stage::Listening {
                            wait: Wait::started(wait.expect, wait.deadline, now),
                        },
                        ..self
                    }
                } else {
                    Session {
                        stage: Stage::Over {
                            outcome: Outcome::Disconnected { cause: DeliveryError::Timeout },
                        },
                        ..self
                    }
                },
            },
            WaitPhase::Failed { error } => Session {
                stage: Stage::Over { outcome: Outcome::Disconnected { cause: error } },
                ..self
            },
            _ => Session { stage: Stage::Listening { wait }, ..self },
        }
    }

    /// Whether the step that `event` causes uses up a fresh sequence number.
    /// It does when it makes a `Ping` or a `Data` packet; an `Ack` repeats
    /// the number of the packet it answers.
    pub open spec fn draws(self, event: Event) -> bool {
        match (self.stage, event) {
            (Stage::Opening { port }, Event::Completed) => port == LAN_PORT,
            (Stage::Linking, Event::Completed) => true,
            (Stage::Choosing, Event::Moved { .. }) => true,
            _ => false,
        }
    }

    /// The session after `event` has been reported at time `now`, where
    /// `fresh` is the sequence number a new packet would get.
    ///
    /// - Opening: when the well-known port is bound, a `Ping` goes out by
    ///   broadcast.  When it cannot be bound, any free port is asked for;
    ///   with that the session can reach this machine only and the loopback
    ///   address is fixed as the peer, after which a `Ping` goes to it.
    ///   Without any socket the session ends.
    /// - A `Ping` that nobody acknowledges, or that cannot be sent, is
    ///   followed by a wait for a peer's `Ping`.
    /// - A peer's `Ping` is answered by fixing its sender as the peer and
    ///   sending the `Ack`; with that the session is confirmed and the peer
    ///   moves first.
    /// - In our turn the local move is sent reliably; in the peer's turn its
    ///   move is waited for, acknowledged and applied.  A move that comes a
    ///   second time is passed over.  A move that the game logic refuses is
    ///   no move: the wait for the peer's move goes on to its deadline.
    /// - An event that answers no action asked for changes nothing, nor does
    ///   any event once the session has ended.
    pub open spec fn next(self, event: Event, now: u128, fresh: u16) -> Session {
        match self.stage {
            Stage::Opening { port } => match event {
                Event::Completed => if port == LAN_PORT {
                    Session {
                        transport: Transport { peer: None, local_only: false },
                        ..self
                    }.probing(PendingExchange::started(ping(fresh), true), now)
                } else {
                    Session {
                        transport: Transport { peer: None, local_only: true },
                        stage: Stage::Linking,
                        ..self
                    }
                },
                Event::Failed(error) => if port == LAN_PORT {
                    Session { stage: Stage::Opening { port: 0 }, ..self }
                } else {
                    Session {
                        stage: Stage::Over {
                            outcome: Outcome::Fallback { cause: DeliveryError::Transport(error) },
                        },
                        ..self
                    }
                },
                _ => self,
            },
            Stage::Linking => match event {
                Event::Completed => Session {
                    transport: Transport {
                        peer: Some(Endpoint { ip: LOOPBACK, port: LAN_PORT }),
                        ..self.transport
                    },
                    ..self
                }.probing(PendingExchange::started(ping(fresh), false), now),
                Event::Failed(error) => self.accepting(
                    Wait::started(Expect::Only(Opcode::Ping), deadline_after(now, TIMEOUT), now),
                ),
                _ => self,
            },
            Stage::Probing { exchange } => self.probing(exchange.next(event, now), now),
            Stage::Accepting { wait } => self.accepting(wait.next(event, now)),
            Stage::Admitting { peer, number } => match event {
                Event::Completed => Session {
                    transport: Transport { peer: Some(peer), ..self.transport },
                    stage: Stage::Greeting { peer, number },
                    ..self
                },
                Event::Failed(error) => Session {
                    stage: Stage::Over {
                        outcome: Outcome::Fallback { cause: DeliveryError::Transport(error) },
                    },
                    ..self
                },
                _ => self,
            },
            Stage::Greeting { peer, number } => match event {
                Event::Completed => Session {
                    role: Role::Responder,
                    peer: Some(peer),
                    ..self
                }.listening(
                    Wait::started(Expect::Only(Opcode::Data), deadline_after(now, TIMEOUT), now),
                    now,
                ),
                Event::Failed(error) => Session {
                    stage: Stage::Over {
                        outcome: Outcome::Fallback { cause: DeliveryError::Transport(error) },
                    },
                    ..self
                },
                _ => self,
            },
            Stage::Choosing => match event {
                Event::Moved { row, column, verdict } => self.moving(
                    PendingExchange::started(move_packet(row, column, fresh), false),
                    verdict,
                    now,
                ),
                _ => self,
            },
            Stage::Moving { exchange, verdict } => self.moving(
                exchange.next(event, now),
                verdict,
                now,
            ),
            Stage::Listening { wait } => self.listening(wait.next(event, now), now),
            Stage::Answering { number, row, column, deadline } => match event {
                Event::Completed => Session {
                    stage: Stage::Applying { row, column, deadline },
                    ..self
                },
                Event::Failed(error) => Session {
                    stage: Stage::Over {
                        outcome: Outcome::Disconnected { cause: DeliveryError::Transport(error) },
                    },
                    ..self
                },
                _ => self,
            },
            Stage::Applying { row, column, deadline } => match event {
                Event::Applied { verdict } => match concluded(verdict) {
                    Some(outcome) => Session { stage: Stage::Over { outcome }, ..self },
                    None => Session { stage: Stage::Choosing, ..self },
                },
                Event::Refused => self.listening(
                    Wait::started(Expect::Only(Opcode::Data), deadline, now),
                    now,
                ),
                _ => self,
            },
            Stage::Over { .. } => self,
        }
    }

    /// The action the session is waiting on.
    pub open spec fn pending(self) -> ActionView {
        match self.stage {
            Stage::Opening { port } => ActionView::Open { port },
            Stage::Linking => ActionView::Connect {
                peer: Endpoint { ip: LOOPBACK, port: LAN_PORT },
            },
            Stage::Probing { exchange } => exchange.pending(),
            Stage::Accepting { wait } => wait.pending(),
            Stage::Admitting { peer, number } => ActionView::Connect { peer },
            Stage::Greeting { peer, number } => ActionView::Transmit {
                bytes: wire_bytes(ack(number)),
                broadcast: false,
            },
            Stage::Choosing => ActionView::ChooseMove,
            Stage::Moving { exchange, verdict } => exchange.pending(),
            Stage::Listening { wait } => wait.pending(),
            Stage::Answering { number, row, column, deadline } => ActionView::Transmit {
                bytes: wire_bytes(ack(number)),
                broadcast: false,
            },
            Stage::Applying { row, column, deadline } => ActionView::ApplyMove { row, column },
            Stage::Over { .. } => ActionView::Stop,
        }
    }

    /// How the session ended, once it has.
    pub open spec fn outcome(self) -> Option<Outcome> {
        match self.stage {
            Stage::Over { outcome } => Some(outcome),
            _ => None,
        }
    }

    /// A new session: unconfirmed, and asking for the socket to be opened on
    /// the well-known port.
    pub fn start() -> (session: Session)
        ensures
            session == Session::started(),
            session.consistent(),
    {
        Session {
            role: Role::Initiator,
            peer: None,
            transport: Transport { peer: None, local_only: false },
            last_move: None,
            stage: Stage::Opening { port: LAN_PORT },
        }
    }

    /// Whether only a peer on this machine can be reached.
    pub fn is_localhost(&self) -> (yes: bool)
        ensures
            yes == self.transport.local_only,
    {
        self.transport.is_localhost()
    }

    /// Whether a peer has been confirmed.
    pub fn is_multiplayer(&self) -> (yes: bool)
        ensures
            yes == self.confirmed(),
    {
        self.peer.is_some()
    }

    /// How the session ended, once it has.
    pub fn result(&self) -> (outcome: Option<Outcome>)
        ensures
            outcome == self.outcome(),
    {
        match self.stage {
            Stage::Over { outcome } => Some(outcome),
            _ => None,
        }
    }

    /// The action the session is waiting on.
    pub fn action(&self) -> (action: Action)
        ensures
            action@ == self.pending(),
    {
        match self.stage {
            Stage::Opening { port } => Action::Open { port },
            Stage::Linking => Action::Connect { peer: Endpoint { ip: LOOPBACK, port: LAN_PORT } },
            Stage::Probing { exchange } => exchange.action(),
            Stage::Accepting { wait } => wait.action(),
            Stage::Admitting { peer, number } => Action::Connect { peer },
            Stage::Greeting { peer, number } => Action::Transmit {
                bytes: Packet::ack(number).to_bytes(),
                broadcast: false,
            },
            Stage::Choosing => Action::ChooseMove,
            Stage::Moving { exchange, verdict } => exchange.action(),
            Stage::Listening { wait } => wait.action(),
            Stage::Answering { number, row, column, deadline } => Action::Transmit {
                bytes: Packet::ack(number).to_bytes(),
                broadcast: false,
            },
            Stage::Applying { row, column, deadline } => Action::ApplyMove { row, column },
            Stage::Over { .. } => Action::Stop,
        }
    }

    fn welcome(self, wait: Wait) -> (after: Session)
        ensures
            after == self.accepting(wait),
    {
        match wait.phase {
            WaitPhase::Matched { packet, sender } => Session {
                stage: Stage::Admitting { peer: sender, number: packet.number() },
                ..self
            },
            WaitPhase::Failed { error } => Session {
                stage: Stage::Over { outcome: Outcome::Fallback { cause: error } },
                ..self
            },
            _ => Session { stage: Stage::Accepting { wait }, ..self },
        }
    }

    fn probe(self, exchange: PendingExchange, now: u128) -> (after: Session)
        ensures
            after == self.probing(exchange, now),
    {
        match exchange.phase {
            ExchangePhase::Delivered { responder } => match responder {
                Some(peer) => {
                    let mut transport = self.transport;
                    transport.bind_peer(peer);
                    Session {
                        role: Role::Initiator,
                        peer: Some(peer),
                        transport,
                        stage: Stage::Choosing,
                        ..self
                    }
                },
                None => Session {
                    role: Role::Initiator,
                    peer: self.transport.peer,
                    stage: Stage::Choosing,
                    ..self
                },
            },
            ExchangePhase::Failed { error } => self.welcome(
                Wait::start(Expect::Only(Opcode::Ping), deadline(now, TIMEOUT), now),
            ),
            _ => Session { stage: Stage::Probing { exchange }, ..self },
        }
    }

    fn is_repeat(&self, packet: &Packet) -> (yes: bool)
        ensures
            yes == self.repeats(*packet),
    {
        match self.last_move {
            Some(last) => last.number() == packet.number() && match (last.data(), packet.data()) {
                (Some((row, column)), Some((other_row, other_column))) => row == other_row
                    && column == other_column,
                (None, None) => true,
                _ => false,
            },
            None => false,
        }
    }

    fn heed(self, wait: Wait, now: u128) -> (after: Session)
        ensures
            after == self.listening(wait, now),
    {
        match wait.phase {
            WaitPhase::Matched { packet, sender } => {
                let repeated = self.is_repeat(&packet);
                match packet.data() {
                    Some((row, column)) => {
                        if (row as usize) < BOARD_SIZE && (column as usize) < BOARD_SIZE
                            && !repeated {
                            return Session {
                                last_move: Some(packet),
                                stage: Stage::Answering {
                                    number: packet.number(),
                                    row,
                                    column,
                                    deadline: wait.deadline,
                                },
                                ..self
                            };
                        }
                    },
                    None => {},
                }
                if now < wait.deadline {
                    Session {
                        stage: Stage::Listening {
                            wait: Wait::start(wait.expect, wait.deadline, now),
                        },
                        ..self
                    }
                } else {
                    Session {
                        stage: Stage::Over {
                            outcome: Outcome::Disconnected { cause: DeliveryError::Timeout },
                        },
                        ..self
                    }
                }
            },
            WaitPhase::Failed { error } => Session {
                stage: Stage::Over { outcome: Outcome::Disconnected { cause: error } },
                ..self
            },
            _ => Session { stage: Stage::Listening { wait }, ..self },
        }
    }

    fn deliver(self, exchange: PendingExchange, verdict: Verdict, now: u128) -> (after: Session)
        ensures
            after == self.moving(exchange, verdict, now),
    {
        match exchange.phase {
            ExchangePhase::Delivered { .. } => match conclude(verdict) {
                Some(outcome) => Session { stage: Stage::Over { outcome }, ..self },
                None => self.heed(
                    Wait::start(Expect::Only(Opcode::Data), deadline(now, TIMEOUT), now),
                    now,
                ),
            },
            ExchangePhase::Failed { error } => Session {
                stage: Stage::Over { outcome: Outcome::Disconnected { cause: error } },
                ..self
            },
            _ => Session { stage: Stage::Moving { exchange, verdict }, ..self },
        }
    }

    /// Takes in `event`, reported at time `now`, and says where the session
    /// stands then.  New packets are numbered from `counter`.  What to do
    /// next is given by [`Session::action`].
    pub fn step(self, event: Event, now: u128, counter: &mut SequenceGenerator) -> (after: Session)
        ensures
            after == self.next(event, now, old(counter)@),
            final(counter)@ == if self.draws(event) {
                issued(old(counter)@, 1)
            } else {
                old(counter)@
            },
            self.consistent() ==> after.consistent(),
    {
        proof {
            if self.consistent() {
                lemma_step_consistent(self, event, now, counter@);
            }
        }
        match self.stage {
            Stage::Opening { port } => match event {
                Event::Completed => {
                    if port == LAN_PORT {
                        let probe = Packet::new(Opcode::Ping, counter);
                        Session { transport: Transport::new(true), ..self }.probe(
                            PendingExchange::start(probe, true),
                            now,
                        )
                    } else {
                        Session { transport: Transport::new(false), stage: Stage::Linking, ..self }
                    }
                },
                Event::Failed(error) => {
                    if port == LAN_PORT {
                        Session { stage: Stage::Opening { port: 0 }, ..self }
                    } else {
                        Session {
                            stage: Stage::Over {
                                outcome: Outcome::Fallback {
                                    cause: DeliveryError::Transport(error),
                                },
                            },
                            ..self
                        }
                    }
                },
                _ => self,
            },
            Stage::Linking => match event {
                Event::Completed => {
                    let probe = Packet::new(Opcode::Ping, counter);
                    let mut transport = self.transport;
                    transport.bind_peer(Endpoint { ip: LOOPBACK, port: LAN_PORT });
                    Session { transport, ..self }.probe(PendingExchange::start(probe, false), now)
                },
                Event::Failed(error) => self.welcome(
                    Wait::start(Expect::Only(Opcode::Ping), deadline(now, TIMEOUT), now),
                ),
                _ => self,
            },
            Stage::Probing { exchange } => self.probe(exchange.step(event, now), now),
            Stage::Accepting { wait } => self.welcome(wait.step(event, now)),
            Stage::Admitting { peer, number } => match event {
                Event::Completed => {
                    let mut transport = self.transport;
                    transport.bind_peer(peer);
                    Session { transport, stage: Stage::Greeting { peer, number }, ..self }
                },
                Event::Failed(error) => Session {
                    stage: Stage::Over {
                        outcome: Outcome::Fallback { cause: DeliveryError::Transport(error) },
                    },
                    ..self
                },
                _ => self,
            },
            Stage::Greeting { peer, number } => match event {
                Event::Completed => Session {
                    role: Role::Responder,
                    peer: Some(peer),
                    ..self
                }.heed(
                    Wait::start(Expect::Only(Opcode::Data), deadline(now, TIMEOUT), now),
                    now,
                ),
                Event::Failed(error) => Session {
                    stage: Stage::Over {
                        outcome: Outcome::Fallback { cause: DeliveryError::Transport(error) },
                    },
                    ..self
                },
                _ => self,
            },
            Stage::Choosing => match event {
                Event::Moved { row, column, verdict } => {
                    let packet = Packet::new_data(row, column, counter);
                    self.deliver(PendingExchange::start(packet, false), verdict, now)
                },
                _ => self,
            },
            Stage::Moving { exchange, verdict } => self.deliver(
                exchange.step(event, now),
                verdict,
                now,
            ),
            Stage::Listening { wait } => self.heed(wait.step(event, now), now),
            Stage::Answering { number, row, column, deadline } => match event {
                Event::Completed => Session {
                    stage: Stage::Applying { row, column, deadline },
                    ..self
                },
                Event::Failed(error) => Session {
                    stage: Stage::Over {
                        outcome: Outcome::Disconnected { cause: DeliveryError::Transport(error) },
                    },
                    ..self
                },
                _ => self,
            },
            Stage::Applying { row, column, deadline } => match event {
                Event::Applied { verdict } => match conclude(verdict) {
                    Some(outcome) => Session { stage: Stage::Over { outcome }, ..self },
                    None => Session { stage: Stage::Choosing, ..self },
                },
                Event::Refused => self.heed(
                    Wait::start(Expect::Only(Opcode::Data), deadline, now),
                    now,
                ),
                _ => self,
            },
            Stage::Over { .. } => self,
        }
    }

    /// Takes in `event` at the time the system clock shows, and says where
    /// the session stands then.
    pub fn advance(self, event: Event, counter: &mut SequenceGenerator) -> (after: Session)
        ensures
            exists|now: u128| after == self.next(event, now, old(counter)@),
            final(counter)@ == if self.draws(event) {
                issued(old(counter)@, 1)
            } else {
                old(counter)@
            },
            self.consistent() ==> after.consistent(),
    {
        let now = get_time();
        self.step(event, now, counter)
    }
}

impl Session {
    /// What holds of every session that [`Session::start`] and
    /// [`Session::step`] can produce.
    ///
    /// - The peer is known exactly from confirmation on: not while a peer is
    ///   sought, and not in a session that ended without one.  While the
    ///   game is on, the socket is fixed to the peer.
    /// - A delivery or wait that the session relies on has not come to its
    ///   end: the session moves on the moment it does.
    /// - Our `Ping` is a `Ping` and our move a `Data` packet, each sent at
    ///   most three times; a `Ping` goes out by broadcast unless only this
    ///   machine can be reached, a move goes to the peer.  Only the answerer
    ///   of a broadcast is fixed as the peer.
    /// - No move is remembered before a peer is confirmed.  A move taken from
    ///   the peer lies on the board, and its packet is remembered while it is
    ///   acknowledged and applied.
    pub open spec fn consistent(self) -> bool {
        &&& self.peer is None ==> self.last_move is None
        &&& self.last_move matches Some(last) ==> on_board(last)
        &&& self.suits_stage()
    }

    /// What the stage of a consistent session asks of the rest of it.
    pub open spec fn suits_stage(self) -> bool {
        match self.stage {
            Stage::Opening { port } => self.peer is None && (port == LAN_PORT || port == 0),
            Stage::Linking => self.peer is None && self.transport.local_only,
            Stage::Probing { exchange } => {
                &&& self.peer is None
                &&& !exchange.finished()
                &&& 1 <= exchange.attempts <= crate::delivery::ATTEMPTS
                &&& exchange.packet.opcode == Opcode::Ping
                &&& exchange.broadcast == !self.transport.local_only
                &&& exchange.phase is Binding ==> exchange.broadcast
                &&& !exchange.broadcast ==> self.transport.peer == Some(
                    Endpoint { ip: LOOPBACK, port: LAN_PORT },
                )
            },
            Stage::Accepting { wait } => {
                &&& self.peer is None
                &&& !wait.finished()
                &&& wait.expect == Expect::Only(Opcode::Ping)
            },
            Stage::Admitting { .. } => self.peer is None,
            Stage::Greeting { peer, number } => self.peer is None && self.transport.peer == Some(
                peer,
            ),
            Stage::Choosing => self.peer is Some && self.transport.peer == self.peer,
            Stage::Moving { exchange, verdict } => {
                &&& self.peer is Some
                &&& self.transport.peer == self.peer
                &&& !exchange.finished()
                &&& 1 <= exchange.attempts <= crate::delivery::ATTEMPTS
                &&& exchange.packet.opcode == Opcode::Data
                &&& !exchange.broadcast
                &&& !(exchange.phase is Binding)
            },
            Stage::Listening { wait } => {
                &&& self.peer is Some
                &&& self.transport.peer == self.peer
                &&& !wait.finished()
                &&& wait.expect == Expect::Only(Opcode::Data)
            },
            Stage::Answering { number, row, column, deadline } => {
                &&& self.peer is Some
                &&& self.transport.peer == self.peer
                &&& self.last_move matches Some(last) && last.number == number && last.data
                    == Some((row, column))
                &&& row < BOARD_SIZE
                &&& column < BOARD_SIZE
            },
            Stage::Applying { row, column, deadline } => {
                &&& self.peer is Some
                &&& self.transport.peer == self.peer
                &&& self.last_move matches Some(last) && last.data == Some((row, column))
                &&& row < BOARD_SIZE
                &&& column < BOARD_SIZE
            },
            Stage::Over { outcome } => (outcome is Fallback) == (self.peer is None),
        }
    }
}

/// A new session is consistent.
pub proof fn lemma_start_consistent()
    ensures
        Session::started().consistent(),
        !Session::started().confirmed(),
{
}

/// Whatever is reported, a consistent session stays consistent.
pub proof fn lemma_step_consistent(session: Session, event: Event, now: u128, fresh: u16)
    requires
        session.consistent(),
    ensures
        session.next(event, now, fresh).consistent(),
{
    match session.stage {
        Stage::Probing { exchange } => {
            crate::delivery::lemma_attempts_bounded(exchange, event, now);
        },
        Stage::Moving { exchange, verdict } => {
            crate::delivery::lemma_attempts_bounded(exchange, event, now);
        },
        _ => {},
    }
}

/// A confirmed session never reverts: the peer and our part in the game stay
/// what they were at confirmation.
pub proof fn lemma_confirmation_is_final(session: Session, event: Event, now: u128, fresh: u16)
    requires
        session.consistent(),
        session.confirmed(),
    ensures
        session.next(event, now, fresh).peer == session.peer,
        session.next(event, now, fresh).role == session.role,
{
}

/// A session is confirmed in one of two ways.  Either our `Ping` was
/// acknowledged: we are then the initiator, the peer is the answerer (on a
/// session that reaches this machine only, the loopback address) and it is
/// our turn.  Or the `Ack` for a peer's `Ping` was sent: we are then the
/// responder, the peer is the sender of that `Ping`, and it is the peer's
/// turn.
pub proof fn lemma_confirmation_paths(session: Session, event: Event, now: u128, fresh: u16)
    requires
        session.consistent(),
        !session.confirmed(),
        session.next(event, now, fresh).confirmed(),
    ensures
        match session.stage {
            Stage::Probing { exchange } => {
                &&& session.next(event, now, fresh).role == Role::Initiator
                &&& session.next(event, now, fresh).stage is Choosing
                &&& exchange.next(event, now).outcome() == Some(
                    Ok::<Option<Endpoint>, DeliveryError>(
                        if exchange.broadcast {
                            session.next(event, now, fresh).peer
                        } else {
                            None
                        },
                    ),
                )
                &&& !exchange.broadcast ==> session.next(event, now, fresh).peer == Some(
                    Endpoint { ip: LOOPBACK, port: LAN_PORT },
                )
            },
            Stage::Greeting { peer, number } => {
                &&& event is Completed
                &&& session.next(event, now, fresh).role == Role::Responder
                &&& session.next(event, now, fresh).peer == Some(peer)
                &&& !(session.next(event, now, fresh).stage is Choosing)
            },
            _ => false,
        },
{
    match session.stage {
        Stage::Probing { exchange } => {
            let after = exchange.next(event, now);
            if after.phase is Delivered {
                if exchange.phase is Binding {
                } else {
                    crate::delivery::lemma_success_needs_answer(exchange, event, now);
                }
            }
        },
        _ => {},
    }
}

/// A session that ends before a peer was confirmed ends with the advice to
/// play without the network, whatever went wrong on the way; a session that
/// ends after confirmation ends with the result of the game or with a
/// disconnect.
pub proof fn lemma_outcome_by_confirmation(session: Session, event: Event, now: u128, fresh: u16)
    requires
        session.consistent(),
        session.next(event, now, fresh).outcome() is Some,
    ensures
        session.next(event, now, fresh).outcome().unwrap() is Fallback <==> !session.next(
            event,
            now,
            fresh,
        ).confirmed(),
{
    lemma_step_consistent(session, event, now, fresh);
}

/// Discovery runs out: while a peer's `Ping` is waited for, any step taken
/// from the deadline on that brings no `Ping` ends the session with the
/// advice to play without the network.
pub proof fn lemma_discovery_exhausted(session: Session, event: Event, now: u128, fresh: u16)
    requires
        session.consistent(),
        session.stage matches Stage::Accepting { wait } && now >= wait.deadline && (
        wait.phase is Sleeping ==> event is Completed) && (wait.phase is Receiving ==> match event {
            Event::Received(frame, sender) => match crate::action::reading(frame) {
                crate::action::Reading::Silence => false,
                crate::action::Reading::Heard(packet) => packet.opcode != Opcode::Ping,
                crate::action::Reading::Noise => true,
            },
            _ => false,
        }),
    ensures
        session.next(event, now, fresh).outcome() == Some(
            Outcome::Fallback { cause: DeliveryError::Timeout },
        ),
{
}

/// The wait for a peer's `Ping` lasts `TIMEOUT` milliseconds from the
/// moment our own `Ping` was given up.
pub proof fn lemma_accept_window(session: Session, event: Event, now: u128, fresh: u16)
    requires
        session.consistent(),
        !(session.stage is Accepting),
        session.next(event, now, fresh).stage is Accepting,
    ensures
        session.stage is Probing || session.stage is Linking,
        session.next(event, now, fresh).stage matches Stage::Accepting { wait } && wait.deadline
            == deadline_after(now, TIMEOUT) && wait.phase is Receiving,
{
}

/// A consistent session asks for nothing exactly when it has ended.
pub proof fn lemma_stop_means_over(session: Session)
    requires
        session.consistent(),
    ensures
        session.pending() is Stop <==> session.outcome() is Some,
{
}

/// The peer's move is handed to the game logic only after its `Ack` was
/// sent, and only if it lies on the board.
pub proof fn lemma_apply_after_ack(session: Session, event: Event, now: u128, fresh: u16)
    requires
        session.consistent(),
        !(session.stage is Applying),
        session.next(event, now, fresh).stage is Applying,
    ensures
        event is Completed,
        session.stage matches Stage::Answering { number, row, column, .. } && session.next(
            event,
            now,
            fresh,
        ).pending() == (ActionView::ApplyMove { row, column }) && row < BOARD_SIZE && column
            < BOARD_SIZE && session.pending() == (ActionView::Transmit {
            bytes: wire_bytes(ack(number)),
            broadcast: false,
        }),
{
}

/// A consistent session asks for a unicast only when the socket is fixed to
/// a peer, so that the transport has somewhere to send it.
pub proof fn lemma_unicast_has_destination(session: Session)
    requires
        session.consistent(),
        session.pending() matches ActionView::Transmit { bytes, broadcast } && !broadcast,
    ensures
        session.transport.peer is Some,
{
}

impl Session {
    /// The session after a run of reports, each an event and the time at
    /// which it was reported, taken in one after the other, together with
    /// the sequence number a new packet would get then.  `fresh` is the
    /// sequence number a new packet would get before the run.
    pub open spec fn after(self, reports: Seq<(Event, u128)>, fresh: u16) -> (Session, u16)
        decreases reports.len(),
    {
        if reports.len() == 0 {
            (self, fresh)
        } else {
            let (before, number) = self.after(reports.drop_last(), fresh);
            (
                before.next(reports.last().0, reports.last().1, number),
                if before.draws(reports.last().0) {
                    issued(number, 1)
                } else {
                    number
                },
            )
        }
    }

    /// Whether `event` brings this session no answer: not the `Ack` for our
    /// `Ping` while that is under way, and no `Ping` while one is waited for.
    pub open spec fn unanswered(self, event: Event) -> bool {
        match (self.stage, event) {
            (Stage::Probing { exchange }, Event::Received(frame, sender)) => !exchange.answered_by(
                crate::action::reading(frame),
            ),
            (Stage::Accepting { wait }, Event::Received(frame, sender)) => {
                !wait.expect.admits_reading(crate::action::reading(frame))
            },
            _ => true,
        }
    }

    /// Whether a peer is still being sought, with no answer so far.
    pub open spec fn seeking(self) -> bool {
        match self.stage {
            Stage::Opening { .. } => true,
            Stage::Linking => true,
            Stage::Probing { exchange } => !(exchange.phase is Binding),
            Stage::Accepting { .. } => true,
            Stage::Over { outcome } => outcome is Fallback,
            _ => false,
        }
    }
}

/// Alone on the network: as long as nobody answers our `Ping` and no `Ping`
/// reaches us while we wait for one, the session stays unconfirmed, and if it
/// has ended it has ended with the advice to play without the network.
pub proof fn lemma_unanswered_session_falls_back(reports: Seq<(Event, u128)>, fresh: u16)
    requires
        forall|i: int|
            0 <= i < reports.len() ==> Session::started().after(
                #[trigger] reports.take(i),
                fresh,
            ).0.unanswered(reports[i].0),
    ensures
        Session::started().after(reports, fresh).0.consistent(),
        Session::started().after(reports, fresh).0.seeking(),
        !Session::started().after(reports, fresh).0.confirmed(),
        Session::started().after(reports, fresh).0.outcome() matches Some(outcome)
            ==> outcome is Fallback,
    decreases reports.len(),
{
    if reports.len() > 0 {
        let front = reports.drop_last();
        assert forall|i: int| 0 <= i < front.len() implies Session::started().after(
            #[trigger] front.take(i),
            fresh,
        ).0.unanswered(front[i].0) by {
            assert(front.take(i) == reports.take(i));
            assert(front[i] == reports[i]);
        }
        lemma_unanswered_session_falls_back(front, fresh);
        let (before, number) = Session::started().after(front, fresh);
        assert(reports.take(reports.len() - 1) == front);
        assert(before.unanswered(reports.last().0));
        lemma_step_consistent(before, reports.last().0, reports.last().1, number);
        match before.stage {
            Stage::Probing { exchange } => {
                let next = exchange.next(reports.last().0, reports.last().1);
                if next.phase is Delivered || next.phase is Binding {
                    crate::delivery::lemma_success_needs_answer(
                        exchange,
                        reports.last().0,
                        reports.last().1,
                    );
                }
            },
            _ => {},
        }
    }
}

/// A move that comes a second time is not taken again: a `Data` packet that
/// repeats the move taken last in number, row and column is passed over, and
/// the wait for the peer's next move goes on to its deadline.  The cell it
/// names was handed to the game logic before.
pub proof fn lemma_repeated_move_passed_over(
    session: Session,
    frame: crate::frame::Frame,
    sender: Endpoint,
    now: u128,
    fresh: u16,
)
    requires
        session.consistent(),
        session.stage matches Stage::Listening { wait } && wait.phase is Receiving,
        crate::action::reading(frame) matches crate::action::Reading::Heard(packet)
            && session.repeats(packet),
    ensures
        ({
            let next = session.next(Event::Received(frame, sender), now, fresh);
            &&& next.last_move == session.last_move
            &&& next.peer == session.peer
            &&& match session.stage {
                Stage::Listening { wait } => if now < wait.deadline {
                    next.stage == (Stage::Listening {
                        wait: Wait::started(wait.expect, wait.deadline, now),
                    }) && next.pending() is Receive
                } else {
                    next.outcome() == Some(
                        Outcome::Disconnected { cause: DeliveryError::Timeout },
                    )
                },
                _ => false,
            }
        }),
{
}

/// Every move for a cell that was not named last is taken: a `Data` packet
/// with row and column on the board that differs from the move taken last
/// in its number, its row or its column is acknowledged, whatever its
/// number, and so is every move on the board while none has been taken.
pub proof fn lemma_new_move_taken(
    session: Session,
    frame: crate::frame::Frame,
    sender: Endpoint,
    now: u128,
    fresh: u16,
)
    requires
        session.consistent(),
        session.stage matches Stage::Listening { wait } && wait.phase is Receiving,
        crate::action::reading(frame) matches crate::action::Reading::Heard(packet)
            && packet.opcode == Opcode::Data && on_board(packet) && (match session.last_move {
            Some(last) => last.number != packet.number || last.data != packet.data,
            None => true,
        }),
    ensures
        ({
            let packet = crate::action::reading(frame)->Heard_0;
            let next = session.next(Event::Received(frame, sender), now, fresh);
            &&& session.takes(packet)
            &&& next.last_move == Some(packet)
            &&& next.stage matches Stage::Answering { number, row, column, deadline }
                && number == packet.number && packet.data == Some((row, column))
            &&& next.pending() == (ActionView::Transmit {
                bytes: wire_bytes(ack(packet.number)),
                broadcast: false,
            })
        }),
{
}

/// A move for a free cell is always taken.  Where the cell named by the
/// move taken last is claimed on the board, as it is once that move was
/// applied, a packet that names a free cell does not repeat it, whatever its
/// number.
pub proof fn lemma_free_cell_is_taken(session: Session, board: Board, packet: Packet)
    requires
        session.last_move matches Some(last) ==> (last.data matches Some((row, column))
            && !board.free(row as int, column as int)),
        packet.data matches Some((row, column)) && board.free(row as int, column as int),
    ensures
        on_board(packet),
        !session.repeats(packet),
        session.takes(packet),
{
}

/// What is no move is passed over: while the peer's move is waited for, a
/// `Ping`, an `Ack` or bytes that are no frame lead to no answer and to no
/// move; the wait goes on to its deadline.
pub proof fn lemma_strays_passed_over(
    session: Session,
    frame: crate::frame::Frame,
    sender: Endpoint,
    now: u128,
    fresh: u16,
)
    requires
        session.consistent(),
        session.stage matches Stage::Listening { wait } && wait.phase is Receiving,
        match crate::action::reading(frame) {
            crate::action::Reading::Silence => false,
            crate::action::Reading::Noise => true,
            crate::action::Reading::Heard(packet) => packet.opcode != Opcode::Data,
        },
    ensures
        ({
            let next = session.next(Event::Received(frame, sender), now, fresh);
            &&& next.last_move == session.last_move
            &&& next.peer == session.peer && next.role == session.role
            &&& !(next.pending() is Transmit) && !(next.pending() is ApplyMove)
            &&& match session.stage {
                Stage::Listening { wait } => if now < wait.deadline {
                    next.stage == (Stage::Listening {
                        wait: Wait { phase: WaitPhase::Receiving, ..wait },
                    })
                } else {
                    next.outcome() == Some(
                        Outcome::Disconnected { cause: DeliveryError::Timeout },
                    )
                },
                _ => false,
            }
        }),
{
}

/// A move that the game logic refuses is no move: the peer's turn goes on,
/// with the deadline the wait for its move had, and the session gives up at
/// that deadline as it would have without the move.
pub proof fn lemma_refused_move_is_no_move(session: Session, now: u128, fresh: u16)
    requires
        session.consistent(),
        session.stage is Applying,
    ensures
        ({
            let deadline = session.stage->Applying_deadline;
            let next = session.next(Event::Refused, now, fresh);
            &&& next.peer == session.peer && next.role == session.role
            &&& next.last_move == session.last_move
            &&& if now < deadline {
                next.stage == (Stage::Listening {
                    wait: Wait {
                        expect: Expect::Only(Opcode::Data),
                        deadline,
                        phase: WaitPhase::Receiving,
                    },
                })
            } else {
                next.outcome() == Some(Outcome::Disconnected { cause: DeliveryError::Timeout })
            }
        }),
{
}

/// A peer's `Ping` is answered in three steps.  When it is received while
/// one is waited for, fixing its sender as the peer is asked for.  When that
/// is done, the `Ack` that repeats the number of the `Ping` is sent to the
/// peer.  When that is done, the session is confirmed: the sender is the
/// peer, we are the responder, and the peer's move is waited for until
/// `TIMEOUT` milliseconds from then.  No sequence number is used up on the
/// way.
pub proof fn lemma_ping_answered(
    session: Session,
    frame: crate::frame::Frame,
    sender: Endpoint,
    received: u128,
    fixed: u128,
    sent: u128,
    fresh: u16,
)
    requires
        session.consistent(),
        session.stage matches Stage::Accepting { wait } && wait.phase is Receiving,
        crate::action::reading(frame) matches crate::action::Reading::Heard(packet)
            && packet.opcode == Opcode::Ping,
        sent + TIMEOUT <= u128::MAX,
    ensures
        ({
            let number = crate::action::reading(frame)->Heard_0.number;
            let first = session.next(Event::Received(frame, sender), received, fresh);
            let second = first.next(Event::Completed, fixed, fresh);
            let third = second.next(Event::Completed, sent, fresh);
            &&& !session.draws(Event::Received(frame, sender))
            &&& !first.draws(Event::Completed)
            &&& !second.draws(Event::Completed)
            &&& first.pending() == (ActionView::Connect { peer: sender })
            &&& !first.confirmed() && first.role == session.role
            &&& second.pending() == (ActionView::Transmit {
                bytes: wire_bytes(ack(number)),
                broadcast: false,
            })
            &&& crate::packet::decode_spec(wire_bytes(ack(number))) == Some(ack(number))
            &&& second.transport.peer == Some(sender)
            &&& !second.confirmed() && second.role == session.role
            &&& third.peer == Some(sender)
            &&& third.transport.peer == Some(sender)
            &&& third.role == Role::Responder
            &&& third.last_move is None
            &&& third.stage == (Stage::Listening {
                wait: Wait {
                    expect: Expect::Only(Opcode::Data),
                    deadline: (sent + TIMEOUT) as u128,
                    phase: WaitPhase::Receiving,
                },
            })
            &&& third.pending() is Receive
        }),
{
    let number = crate::action::reading(frame)->Heard_0.number;
    crate::packet::lemma_decode_encode(ack(number));
}

/// The peer's move is taken in three steps.  When a new move on the board is
/// received while one is waited for, the `Ack` that repeats the number of
/// its packet is sent to the peer.  When that is done, the move is handed
/// to the game logic, with the coordinates the packet brought.  When the
/// game logic has applied it, it is our turn, unless the game is over.
pub proof fn lemma_move_taken(
    session: Session,
    frame: crate::frame::Frame,
    sender: Endpoint,
    received: u128,
    sent: u128,
    applied: u128,
    verdict: Verdict,
    fresh: u16,
)
    requires
        session.consistent(),
        session.stage matches Stage::Listening { wait } && wait.phase is Receiving,
        crate::action::reading(frame) matches crate::action::Reading::Heard(packet)
            && packet.opcode == Opcode::Data && session.takes(packet),
    ensures
        ({
            let packet = crate::action::reading(frame)->Heard_0;
            let first = session.next(Event::Received(frame, sender), received, fresh);
            let second = first.next(Event::Completed, sent, fresh);
            let third = second.next(Event::Applied { verdict }, applied, fresh);
            &&& packet.data matches Some((row, column)) && second.pending() == (
            ActionView::ApplyMove { row, column }) && row < BOARD_SIZE && column < BOARD_SIZE
            &&& first.pending() == (ActionView::Transmit {
                bytes: wire_bytes(ack(packet.number)),
                broadcast: false,
            })
            &&& first.last_move == Some(packet)
            &&& !session.draws(Event::Received(frame, sender))
            &&& !first.draws(Event::Completed)
            &&& !second.draws(Event::Applied { verdict })
            &&& third.peer == session.peer && third.role == session.role
            &&& match concluded(verdict) {
                Some(outcome) => third.outcome() == Some(outcome),
                None => third.stage is Choosing && third.pending() is ChooseMove,
            }
        }),
{
}

/// Our move is sent in full: when the game logic names the local move, a
/// `Data` packet with a fresh number and these coordinates goes to the peer;
/// what the peer decodes from its frame is this move.  When the peer's `Ack`
/// with that number is received, the move is delivered: the session ends if
/// the move ended the game, and otherwise the peer's move is waited for
/// until `TIMEOUT` milliseconds from then.
pub proof fn lemma_move_sent(
    session: Session,
    row: usize,
    column: usize,
    verdict: Verdict,
    moved: u128,
    sent: u128,
    frame: crate::frame::Frame,
    sender: Endpoint,
    received: u128,
    fresh: u16,
)
    requires
        session.consistent(),
        session.stage is Choosing,
        row < 65536,
        column < 65536,
        sent + crate::delivery::ATTEMPT_WINDOW <= u128::MAX,
        received + TIMEOUT <= u128::MAX,
        crate::action::reading(frame) == crate::action::Reading::Heard(ack(fresh)),
    ensures
        ({
            let packet = move_packet(row, column, fresh);
            let first = session.next(Event::Moved { row, column, verdict }, moved, fresh);
            let second = first.next(Event::Completed, sent, fresh);
            let third = second.next(Event::Received(frame, sender), received, fresh);
            &&& session.draws(Event::Moved { row, column, verdict })
            &&& packet.data == Some((row as u16, column as u16))
            &&& first.pending() == (ActionView::Transmit {
                bytes: wire_bytes(packet),
                broadcast: false,
            })
            &&& crate::packet::decode_spec(wire_bytes(packet)) == Some(packet)
            &&& second.pending() is Receive
            &&& third.peer == session.peer && third.role == session.role
            &&& match concluded(verdict) {
                Some(outcome) => third.outcome() == Some(outcome),
                None => third.stage == (Stage::Listening {
                    wait: Wait {
                        expect: Expect::Only(Opcode::Data),
                        deadline: (received + TIMEOUT) as u128,
                        phase: WaitPhase::Receiving,
                    },
                }),
            }
        }),
{
    crate::packet::lemma_decode_encode(move_packet(row, column, fresh));
}

/// Both sides agree on a move: the coordinates that the side whose turn it
/// is sends are the coordinates that the other side, waiting for them, hands
/// to its game logic, and the two sides mark the cell for the same player.
pub proof fn lemma_move_agreed(
    mover: Session,
    taker: Session,
    row: usize,
    column: usize,
    verdict: Verdict,
    frame: crate::frame::Frame,
    sender: Endpoint,
    moved: u128,
    received: u128,
    acknowledged: u128,
    fresh: u16,
    other: u16,
)
    requires
        mover.consistent(),
        mover.stage is Choosing,
        taker.consistent(),
        taker.stage matches Stage::Listening { wait } && wait.phase is Receiving,
        !taker.repeats(move_packet(row, column, fresh)),
        row < BOARD_SIZE,
        column < BOARD_SIZE,
        mover.next(Event::Moved { row, column, verdict }, moved, fresh).pending()
            matches ActionView::Transmit { bytes, broadcast } && frame.unread() == Some(bytes)
            && frame.data().len() > 0,
    ensures
        taker.next(Event::Received(frame, sender), received, other).next(
            Event::Completed,
            acknowledged,
            other,
        ).pending() == (ActionView::ApplyMove { row: row as u16, column: column as u16 }),
        taker.next(Event::Received(frame, sender), received, other).pending() == (
        ActionView::Transmit { bytes: wire_bytes(ack(fresh)), broadcast: false }),
        Role::Initiator.spec_player() == Role::Responder.spec_player().spec_opponent(),
        Role::Responder.spec_player() == Role::Initiator.spec_player().spec_opponent(),
{
    crate::packet::lemma_decode_encode(move_packet(row, column, fresh));
}

/// The first move reaches a peer that has just answered: a session that
/// waited for a `Ping`, got one and answered it is the responder, and the
/// first move that the initiator sends, whatever its number, is acknowledged
/// by it and handed to its game logic with the coordinates that were sent.
pub proof fn lemma_first_move_agreed(
    mover: Session,
    waiting: Session,
    ping_frame: crate::frame::Frame,
    sender: Endpoint,
    heard: u128,
    fixed: u128,
    answered: u128,
    row: usize,
    column: usize,
    verdict: Verdict,
    frame: crate::frame::Frame,
    moved: u128,
    received: u128,
    acknowledged: u128,
    fresh: u16,
    other: u16,
)
    requires
        mover.consistent(),
        mover.stage is Choosing,
        waiting.consistent(),
        waiting.stage matches Stage::Accepting { wait } && wait.phase is Receiving,
        crate::action::reading(ping_frame) matches crate::action::Reading::Heard(packet)
            && packet.opcode == Opcode::Ping,
        answered + TIMEOUT <= u128::MAX,
        row < BOARD_SIZE,
        column < BOARD_SIZE,
        mover.next(Event::Moved { row, column, verdict }, moved, fresh).pending()
            matches ActionView::Transmit { bytes, broadcast } && frame.unread() == Some(bytes)
            && frame.data().len() > 0,
    ensures
        ({
            let taker = waiting.next(Event::Received(ping_frame, sender), heard, other).next(
                Event::Completed,
                fixed,
                other,
            ).next(Event::Completed, answered, other);
            let first = taker.next(Event::Received(frame, sender), received, other);
            let second = first.next(Event::Completed, acknowledged, other);
            &&& taker.consistent()
            &&& taker.role == Role::Responder
            &&& taker.peer == Some(sender)
            &&& first.pending() == (ActionView::Transmit {
                bytes: wire_bytes(ack(fresh)),
                broadcast: false,
            })
            &&& second.pending() == (ActionView::ApplyMove {
                row: row as u16,
                column: column as u16,
            })
        }),
{
    let one = waiting.next(Event::Received(ping_frame, sender), heard, other);
    let two = one.next(Event::Completed, fixed, other);
    let taker = two.next(Event::Completed, answered, other);
    lemma_ping_answered(waiting, ping_frame, sender, heard, fixed, answered, other);
    lemma_step_consistent(waiting, Event::Received(ping_frame, sender), heard, other);
    lemma_step_consistent(one, Event::Completed, fixed, other);
    lemma_step_consistent(two, Event::Completed, answered, other);
    lemma_move_agreed(
        mover,
        taker,
        row,
        column,
        verdict,
        frame,
        sender,
        moved,
        received,
        acknowledged,
        fresh,
        other,
    );
}

/// Waiting for a peer's `Ping` changes nothing but the wait: along any run
/// of reports that brings no `Ping`, a session that waits for one keeps its
/// deadline, fixes no peer, takes no part and sends nothing.  It can end
/// only with the advice to play without the network, and it ends so by
/// timeout only on a report that came at the deadline or later.
pub proof fn lemma_accept_runs_to_deadline(
    session: Session,
    reports: Seq<(Event, u128)>,
    fresh: u16,
)
    requires
        session.consistent(),
        session.stage is Accepting,
        forall|i: int|
            0 <= i < reports.len() ==> session.after(
                #[trigger] reports.take(i),
                fresh,
            ).0.unanswered(reports[i].0),
    ensures
        ({
            let end = session.after(reports, fresh).0;
            &&& session.after(reports, fresh).1 == fresh
            &&& end.consistent()
            &&& end.role == session.role
            &&& end.peer is None
            &&& end.transport == session.transport
            &&& end.last_move == session.last_move
            &&& !(end.pending() is Transmit) && !(end.pending() is Connect)
            &&& match end.stage {
                Stage::Accepting { wait } => wait.deadline
                    == session.stage->Accepting_wait.deadline,
                Stage::Over { outcome } => outcome is Fallback && (outcome == (Outcome::Fallback {
                    cause: DeliveryError::Timeout,
                }) ==> exists|i: int|
                    0 <= i < reports.len() && (#[trigger] reports[i]).1
                        >= session.stage->Accepting_wait.deadline),
                _ => false,
            }
        }),
    decreases reports.len(),
{
    if reports.len() > 0 {
        let front = reports.drop_last();
        assert forall|i: int| 0 <= i < front.len() implies session.after(
            #[trigger] front.take(i),
            fresh,
        ).0.unanswered(front[i].0) by {
            assert(front.take(i) == reports.take(i));
            assert(front[i] == reports[i]);
        }
        lemma_accept_runs_to_deadline(session, front, fresh);
        let before = session.after(front, fresh).0;
        assert(reports.take(reports.len() - 1) == front);
        assert(before.unanswered(reports.last().0));
        lemma_step_consistent(before, reports.last().0, reports.last().1, fresh);
        let end = session.after(reports, fresh).0;
        match before.stage {
            Stage::Over { outcome } => {
                if outcome == (Outcome::Fallback { cause: DeliveryError::Timeout }) {
                    let i = choose|i: int|
                        0 <= i < front.len() && (#[trigger] front[i]).1
                            >= session.stage->Accepting_wait.deadline;
                    assert(reports[i] == front[i]);
                }
            },
            _ => {
                if end.outcome() == Some(Outcome::Fallback { cause: DeliveryError::Timeout }) {
                    assert(reports[reports.len() - 1].1
                        >= session.stage->Accepting_wait.deadline);
                }
            },
        }
    }
}

} // verus!
