//! Acknowledged delivery over a transport that may lose datagrams.
//!
//! [`PendingExchange`] sends one packet up to three times and waits after each
//! transmission for the `Ack` that repeats its sequence number.
//! [`Wait`] listens until a deadline for the first packet of a wanted kind.
//! Both mask loss and strangers' traffic; what their callers see is success
//! or an explicit failure, never an endless wait.

use crate::action::{read, reading, Action, ActionView, Event, Reading};
use crate::packet::{wire_bytes, Opcode, Packet};
use crate::transport::Endpoint;
use crate::transport::TransportError;
use vstd::prelude::*;

verus! {

/// How often a packet is transmitted before delivery is given up.
pub const ATTEMPTS: u8 = 3;

/// How long, in milliseconds, an answer is awaited after each transmission.
pub const ATTEMPT_WINDOW: u128 = 1000;

/// How long, in milliseconds, to rest after a receive attempt found nothing.
pub const POLL_INTERVAL: u64 = 50;

/// Why a delivery or a wait came to nothing.
#[derive(Clone, Copy, Debug, PartialEq, Eq, Structural)]
pub enum DeliveryError {
    /// No matching packet came within the time allowed.
    Timeout,
    /// The transport failed.
    Transport(TransportError),
}

/// The moment `window` milliseconds after `now`, or the last moment there is
/// if that lies beyond it.
pub open spec fn deadline_after(now: u128, window: u128) -> u128 {
    if now + window > u128::MAX {
        u128::MAX
    } else {
        (now + window) as u128
    }
}

/// The moment `window` milliseconds after `now`, or the last moment there is
/// if that lies beyond it.
#[verifier::when_used_as_spec(deadline_after)]
pub fn deadline(now: u128, window: u128) -> (moment: u128)
    ensures
        moment == deadline_after(now, window),
{
    if now > u128::MAX - window {
        u128::MAX
    } else {
        now + window
    }
}

/// Where a pending exchange stands.
#[derive(Clone, Copy, Debug, PartialEq, Eq)]
pub enum ExchangePhase {
    /// A transmission has been asked for.
    Transmitting,
    /// A receive attempt has been asked for.
    Receiving,
    /// A rest between two receive attempts has been asked for.
    Sleeping,
    /// The answer to a broadcast has come from `peer`, and fixing `peer` as
    /// the peer has been asked for.
    Binding { peer: Endpoint },
    /// The packet was acknowledged.  `responder` is the answerer that was
    /// fixed as the peer, if the packet went out by broadcast.
    Delivered { responder: Option<Endpoint> },
    /// The exchange was given up.
    Failed { error: DeliveryError },
}

/// One reliable send under way: the packet, how it is sent, the number of
/// transmissions asked for so far and the end of the current wait.
#[derive(Clone, Copy, Debug, PartialEq, Eq)]
pub struct PendingExchange {
    /// The packet being sent.
    pub packet: Packet,
    /// Whether it goes out by broadcast rather than to the fixed peer.
    pub broadcast: bool,
    /// Transmissions asked for so far, this one included.
    pub attempts: u8,
    /// When the wait that follows the latest transmission ends.
    pub deadline: u128,
    /// Where the exchange stands.
    pub phase: ExchangePhase,
}

impl PendingExchange {
    /// The exchange at its start: the first transmission is asked for.
    pub open spec fn started(packet: Packet, broadcast: bool) -> PendingExchange {
        PendingExchange {
            packet,
            broadcast,
            attempts: 1,
            deadline: 0,
            phase: ExchangePhase::Transmitting,
        }
    }

    /// Whether the exchange has come to its end.
    pub open spec fn finished(self) -> bool {
        self.phase is Delivered || self.phase is Failed
    }

    /// How a finished exchange ended.
    pub open spec fn outcome(self) -> Option<Result<Option<Endpoint>, DeliveryError>> {
        match self.phase {
            ExchangePhase::Delivered { responder } => Some(Ok(responder)),
            ExchangePhase::Failed { error } => Some(Err(error)),
            _ => None,
        }
    }

    /// Whether `heard` is the answer this exchange waits for: an `Ack` that
    /// repeats the sequence number of the packet.
    pub open spec fn answered_by(self, heard: Reading) -> bool {
        heard matches Reading::Heard(reply) && reply.opcode == Opcode::Ack && reply.number
            == self.packet.number
    }

    /// What follows when the clock is looked at during a wait: another
    /// receive attempt while the wait lasts; after it the next transmission,
    /// or failure by timeout if all transmissions have been made.
    pub open spec fn polled(self, now: u128) -> PendingExchange {
        if now < self.deadline {
            PendingExchange { phase: ExchangePhase::Receiving, ..self }
        } else if self.attempts < ATTEMPTS {
            PendingExchange {
                attempts: (self.attempts + 1) as u8,
                phase: ExchangePhase::Transmitting,
                ..self
            }
        } else {
            PendingExchange {
                phase: ExchangePhase::Failed { error: DeliveryError::Timeout },
                ..self
            }
        }
    }

    /// The exchange after `event` has been reported at time `now`.
    ///
    /// - After a transmission the wait begins: it ends `ATTEMPT_WINDOW`
    ///   milliseconds from `now`.
    /// - A receive attempt that found nothing leads to a rest.  One that
    ///   found the awaited `Ack` ends the exchange, by way of fixing the
    ///   sender as the peer if the packet went out by broadcast.  Anything
    ///   else received is passed over and the clock is looked at.
    /// - After a rest the clock is looked at.
    /// - A transport failure ends the exchange.
    /// - An event that answers no action asked for changes nothing, nor does
    ///   any event once the exchange has ended.
    pub open spec fn next(self, event: Event, now: u128) -> PendingExchange {
        match (self.phase, event) {
            (ExchangePhase::Delivered { .. }, _) => self,
            (ExchangePhase::Failed { .. }, _) => self,
            (_, Event::Failed(error)) => PendingExchange {
                phase: ExchangePhase::Failed { error: DeliveryError::Transport(error) },
                ..self
            },
            (ExchangePhase::Transmitting, Event::Completed) => PendingExchange {
                deadline: deadline_after(now, ATTEMPT_WINDOW),
                ..self
            }.polled(now),
            (ExchangePhase::Receiving, Event::Received(frame, sender)) => {
                if reading(frame) is Silence {
                    PendingExchange { phase: ExchangePhase::Sleeping, ..self }
                } else if self.answered_by(reading(frame)) {
                    if self.broadcast {
                        PendingExchange { phase: ExchangePhase::Binding { peer: sender }, ..self }
                    } else {
                        PendingExchange {
                            phase: ExchangePhase::Delivered { responder: None },
                            ..self
                        }
                    }
                } else {
                    self.polled(now)
                }
            },
            (ExchangePhase::Sleeping, Event::Completed) => self.polled(now),
            (ExchangePhase::Binding { peer }, Event::Completed) => PendingExchange {
                phase: ExchangePhase::Delivered { responder: Some(peer) },
                ..self
            },
            _ => self,
        }
    }

    /// The action the exchange is waiting on.
    pub open spec fn pending(self) -> ActionView {
        match self.phase {
            ExchangePhase::Transmitting => ActionView::Transmit {
                bytes: wire_bytes(self.packet),
                broadcast: self.broadcast,
            },
            ExchangePhase::Receiving => ActionView::Receive,
            ExchangePhase::Sleeping => ActionView::Sleep { millis: POLL_INTERVAL },
            ExchangePhase::Binding { peer } => ActionView::Connect { peer },
            ExchangePhase::Delivered { .. } => ActionView::Stop,
            ExchangePhase::Failed { .. } => ActionView::Stop,
        }
    }

    /// The action the exchange is waiting on.
    pub fn action(&self) -> (action: Action)
        ensures
            action@ == self.pending(),
    {
        match self.phase {
            ExchangePhase::Transmitting => Action::Transmit {
                bytes: self.packet.to_bytes(),
                broadcast: self.broadcast,
            },
            ExchangePhase::Receiving => Action::Receive,
            ExchangePhase::Sleeping => Action::Sleep { millis: POLL_INTERVAL },
            ExchangePhase::Binding { peer } => Action::Connect { peer },
            ExchangePhase::Delivered { .. } => Action::Stop,
            ExchangePhase::Failed { .. } => Action::Stop,
        }
    }

    /// How the exchange ended, once it has: in success, with the answerer of
    /// a broadcast that was fixed as the peer, or in failure.
    pub fn result(&self) -> (outcome: Option<Result<Option<Endpoint>, DeliveryError>>)
        ensures
            outcome == self.outcome(),
    {
        match self.phase {
            ExchangePhase::Delivered { responder } => Some(Ok(responder)),
            ExchangePhase::Failed { error } => Some(Err(error)),
            _ => None,
        }
    }

    /// Begins the reliable delivery of `packet`, by broadcast or to the fixed
    /// peer.
    pub fn start(packet: Packet, broadcast: bool) -> (exchange: PendingExchange)
        ensures
            exchange == PendingExchange::started(packet, broadcast),
    {
        PendingExchange {
            packet,
            broadcast,
            attempts: 1,
            deadline: 0,
            phase: ExchangePhase::Transmitting,
        }
    }

    fn poll(self, now: u128) -> (after: PendingExchange)
        ensures
            after == self.polled(now),
    {
        if now < self.deadline {
            PendingExchange { phase: ExchangePhase::Receiving, ..self }
        } else if self.attempts < ATTEMPTS {
            PendingExchange {
                attempts: self.attempts + 1,
                phase: ExchangePhase::Transmitting,
                ..self
            }
        } else {
            PendingExchange {
                phase: ExchangePhase::Failed { error: DeliveryError::Timeout },
                ..self
            }
        }
    }

    /// Takes in `event`, reported at time `now`, and says where the exchange
    /// stands then.  What to do next is given by [`PendingExchange::action`].
    pub fn step(self, event: Event, now: u128) -> (after: PendingExchange)
        ensures
            after == self.next(event, now),
    {
        match self.phase {
            ExchangePhase::Delivered { .. } => {
                return self;
            },
            ExchangePhase::Failed { .. } => {
                return self;
            },
            _ => {},
        }
        match event {
            Event::Failed(error) => PendingExchange {
                phase: ExchangePhase::Failed { error: DeliveryError::Transport(error) },
                ..self
            },
            Event::Completed => match self.phase {
                ExchangePhase::Transmitting => PendingExchange {
                    deadline: deadline(now, ATTEMPT_WINDOW),
                    ..self
                }.poll(now),
                ExchangePhase::Sleeping => self.poll(now),
                ExchangePhase::Binding { peer } => PendingExchange {
                    phase: ExchangePhase::Delivered { responder: Some(peer) },
                    ..self
                },
                _ => self,
            },
            Event::Received(frame, sender) => match self.phase {
                ExchangePhase::Receiving => match read(frame) {
                    Reading::Silence => PendingExchange { phase: ExchangePhase::Sleeping, ..self },
                    Reading::Heard(reply) => {
                        if reply.is_ack() && reply.number() == self.packet.number() {
                            if self.broadcast {
                                PendingExchange {
                                    phase: ExchangePhase::Binding { peer: sender },
                                    ..self
                                }
                            } else {
                                PendingExchange {
                                    phase: ExchangePhase::Delivered { responder: None },
                                    ..self
                                }
                            }
                        } else {
                            self.poll(now)
                        }
                    },
                    Reading::Noise => self.poll(now),
                },
                _ => self,
            },
            _ => self,
        }
    }
}

/// Which packets end a wait.
#[derive(Clone, Copy, Debug, PartialEq, Eq, Structural)]
pub enum Expect {
    /// Any packet.
    Any,
    /// A packet with this opcode.
    Only(Opcode),
}

impl Expect {
    /// Whether `packet` is one of those waited for.
    pub open spec fn admits(self, packet: Packet) -> bool {
        match self {
            Expect::Any => true,
            Expect::Only(opcode) => packet.opcode == opcode,
        }
    }

    /// Whether what was received is a packet waited for.
    pub open spec fn admits_reading(self, heard: Reading) -> bool {
        heard matches Reading::Heard(packet) && self.admits(packet)
    }

    /// Whether `packet` is one of those waited for.
    #[verifier::when_used_as_spec(admits)]
    pub fn accepts(self, packet: Packet) -> (yes: bool)
        ensures
            yes == self.admits(packet),
    {
        match self {
            Expect::Any => true,
            Expect::Only(opcode) => packet.what() == opcode,
        }
    }
}

/// Where a wait stands.
#[derive(Clone, Copy, Debug, PartialEq, Eq)]
pub enum WaitPhase {
    /// A receive attempt has been asked for.
    Receiving,
    /// A rest between two receive attempts has been asked for.
    Sleeping,
    /// A wanted packet has come, from `sender`.
    Matched { packet: Packet, sender: Endpoint },
    /// The wait was given up.
    Failed { error: DeliveryError },
}

/// A wait, until a deadline, for the first packet of a wanted kind.
#[derive(Clone, Copy, Debug, PartialEq, Eq)]
pub struct Wait {
    /// Which packets end the wait.
    pub expect: Expect,
    /// The moment from which on no further receive attempt is made.
    pub deadline: u128,
    /// Where the wait stands.
    pub phase: WaitPhase,
}

impl Wait {
    /// Whether the wait has come to its end.
    pub open spec fn finished(self) -> bool {
        self.phase is Matched || self.phase is Failed
    }

    /// How a finished wait ended.
    pub open spec fn outcome(self) -> Option<Result<(Packet, Endpoint), DeliveryError>> {
        match self.phase {
            WaitPhase::Matched { packet, sender } => Some(Ok((packet, sender))),
            WaitPhase::Failed { error } => Some(Err(error)),
            _ => None,
        }
    }

    /// What follows when the clock is looked at: another receive attempt
    /// before the deadline, failure by timeout from the deadline on.
    pub open spec fn polled(self, now: u128) -> Wait {
        if now < self.deadline {
            Wait { phase: WaitPhase::Receiving, ..self }
        } else {
            Wait { phase: WaitPhase::Failed { error: DeliveryError::Timeout }, ..self }
        }
    }

    /// The wait at its start, at time `now`: the clock is looked at before
    /// anything is received.
    pub open spec fn started(expect: Expect, deadline: u128, now: u128) -> Wait {
        Wait { expect, deadline, phase: WaitPhase::Receiving }.polled(now)
    }

    /// The wait after `event` has been reported at time `now`.
    ///
    /// - A receive attempt that found nothing leads to a rest.  One that
    ///   found a wanted packet ends the wait.  Anything else received is
    ///   passed over and the clock is looked at.
    /// - After a rest the clock is looked at.
    /// - A transport failure ends the wait.
    /// - An event that answers no action asked for changes nothing, nor does
    ///   any event once the wait has ended.
    pub open spec fn next(self, event: Event, now: u128) -> Wait {
        match (self.phase, event) {
            (WaitPhase::Matched { .. }, _) => self,
            (WaitPhase::Failed { .. }, _) => self,
            (_, Event::Failed(error)) => Wait {
                phase: WaitPhase::Failed { error: DeliveryError::Transport(error) },
                ..self
            },
            (WaitPhase::Receiving, Event::Received(frame, sender)) => match reading(frame) {
                Reading::Silence => Wait { phase: WaitPhase::Sleeping, ..self },
                Reading::Heard(packet) => if self.expect.admits(packet) {
                    Wait { phase: WaitPhase::Matched { packet, sender }, ..self }
                } else {
                    self.polled(now)
                },
                Reading::Noise => self.polled(now),
            },
            (WaitPhase::Sleeping, Event::Completed) => self.polled(now),
            _ => self,
        }
    }

    /// The action the wait is waiting on.
    pub open spec fn pending(self) -> ActionView {
        match self.phase {
            WaitPhase::Receiving => ActionView::Receive,
            WaitPhase::Sleeping => ActionView::Sleep { millis: POLL_INTERVAL },
            WaitPhase::Matched { .. } => ActionView::Stop,
            WaitPhase::Failed { .. } => ActionView::Stop,
        }
    }

    /// The action the wait is waiting on.
    pub fn action(&self) -> (action: Action)
        ensures
            action@ == self.pending(),
    {
        match self.phase {
            WaitPhase::Receiving => Action::Receive,
            WaitPhase::Sleeping => Action::Sleep { millis: POLL_INTERVAL },
            WaitPhase::Matched { .. } => Action::Stop,
            WaitPhase::Failed { .. } => Action::Stop,
        }
    }

    fn poll(self, now: u128) -> (after: Wait)
        ensures
            after == self.polled(now),
    {
        if now < self.deadline {
            Wait { phase: WaitPhase::Receiving, ..self }
        } else {
            Wait { phase: WaitPhase::Failed { error: DeliveryError::Timeout }, ..self }
        }
    }

    /// How the wait ended, once it has: with the packet that came and its
    /// sender, or in failure.
    pub fn result(&self) -> (outcome: Option<Result<(Packet, Endpoint), DeliveryError>>)
        ensures
            outcome == self.outcome(),
    {
        match self.phase {
            WaitPhase::Matched { packet, sender } => Some(Ok((packet, sender))),
            WaitPhase::Failed { error } => Some(Err(error)),
            _ => None,
        }
    }

    /// Begins, at time `now`, a wait for a packet that `expect` admits.  No
    /// receive attempt is made from `deadline` on.
    pub fn start(expect: Expect, deadline: u128, now: u128) -> (wait: Wait)
        ensures
            wait == Wait::started(expect, deadline, now),
    {
        Wait { expect, deadline, phase: WaitPhase::Receiving }.poll(now)
    }

    /// Takes in `event`, reported at time `now`, and says where the wait
    /// stands then.  What to do next is given by [`Wait::action`].
    pub fn step(self, event: Event, now: u128) -> (after: Wait)
        ensures
            after == self.next(event, now),
    {
        match self.phase {
            WaitPhase::Matched { .. } => {
                return self;
            },
            WaitPhase::Failed { .. } => {
                return self;
            },
            _ => {},
        }
        match event {
            Event::Failed(error) => Wait {
                phase: WaitPhase::Failed { error: DeliveryError::Transport(error) },
                ..self
            },
            Event::Completed => match self.phase {
                WaitPhase::Sleeping => self.poll(now),
                _ => self,
            },
            Event::Received(frame, sender) => match self.phase {
                WaitPhase::Receiving => match read(frame) {
                    Reading::Silence => Wait { phase: WaitPhase::Sleeping, ..self },
                    Reading::Heard(packet) => {
                        if self.expect.accepts(packet) {
                            Wait { phase: WaitPhase::Matched { packet, sender }, ..self }
                        } else {
                            self.poll(now)
                        }
                    },
                    Reading::Noise => self.poll(now),
                },
                _ => self,
            },
            _ => self,
        }
    }
}

/// An exchange never asks for more than three transmissions: the count
/// starts at one and stays between one and three whatever is reported.
pub proof fn lemma_attempts_bounded(exchange: PendingExchange, event: Event, now: u128)
    requires
        1 <= exchange.attempts <= ATTEMPTS,
    ensures
        1 <= exchange.next(event, now).attempts <= ATTEMPTS,
        exchange.attempts <= exchange.next(event, now).attempts <= exchange.attempts + 1,
        exchange.next(event, now).packet == exchange.packet,
        exchange.next(event, now).broadcast == exchange.broadcast,
{
}

/// A further transmission is asked for only when the wait that followed the
/// one before has run out.
pub proof fn lemma_retransmit_after_window(exchange: PendingExchange, event: Event, now: u128)
    requires
        exchange.next(event, now).attempts != exchange.attempts,
    ensures
        exchange.next(event, now).attempts == exchange.attempts + 1,
        exchange.next(event, now).phase is Transmitting,
        exchange.attempts < ATTEMPTS,
        exchange.phase is Transmitting ==> now >= deadline_after(now, ATTEMPT_WINDOW),
        !(exchange.phase is Transmitting) ==> now >= exchange.deadline,
{
}

/// An exchange fails by timeout only when all three transmissions have been
/// asked for and the wait that followed the last one has run out.
pub proof fn lemma_timeout_after_last_attempt(exchange: PendingExchange, event: Event, now: u128)
    requires
        !exchange.finished(),
        exchange.next(event, now).phase == (ExchangePhase::Failed {
            error: DeliveryError::Timeout,
        }),
    ensures
        exchange.attempts >= ATTEMPTS,
        now >= exchange.next(event, now).deadline,
{
}

/// An `Ack` whose sequence number differs from that of the packet being
/// sent does not end the exchange in success: it is passed over like any
/// stray datagram, and the clock is looked at.
pub proof fn lemma_mismatched_ack_passed_over(
    exchange: PendingExchange,
    frame: crate::frame::Frame,
    sender: Endpoint,
    now: u128,
)
    requires
        exchange.phase is Transmitting || exchange.phase is Receiving || exchange.phase
            is Sleeping,
        reading(frame) matches Reading::Heard(reply) && reply.opcode == Opcode::Ack && reply.number
            != exchange.packet.number,
    ensures
        !(exchange.next(Event::Received(frame, sender), now).phase is Delivered),
        !(exchange.next(Event::Received(frame, sender), now).phase is Binding),
        exchange.phase is Receiving ==> exchange.next(Event::Received(frame, sender), now)
            == exchange.polled(now),
{
}

/// Only the awaited answer moves an exchange towards success: the `Ack` with
/// the sequence number of the packet, received while the exchange was
/// listening.
pub proof fn lemma_success_needs_answer(exchange: PendingExchange, event: Event, now: u128)
    requires
        exchange.phase is Transmitting || exchange.phase is Receiving || exchange.phase
            is Sleeping,
        exchange.next(event, now).phase is Delivered || exchange.next(event, now).phase
            is Binding,
    ensures
        exchange.phase is Receiving,
        event matches Event::Received(frame, sender) && exchange.answered_by(reading(frame)) && (
        match exchange.next(event, now).phase {
            ExchangePhase::Binding { peer } => peer == sender && exchange.broadcast,
            _ => !exchange.broadcast,
        }),
{
}

/// A wait ends with a packet only if that packet was received before the
/// deadline passed unnoticed and is of the wanted kind; it ends by timeout
/// only from the deadline on.
pub proof fn lemma_wait_ends(wait: Wait, event: Event, now: u128)
    requires
        !wait.finished(),
    ensures
        wait.next(event, now).phase matches WaitPhase::Matched { packet, sender } ==> (wait.phase
            is Receiving && wait.expect.admits(packet) && match event {
            Event::Received(frame, from) => from == sender && reading(frame) == Reading::Heard(
                packet,
            ),
            _ => false,
        }),
        wait.next(event, now).phase == (WaitPhase::Failed { error: DeliveryError::Timeout })
            ==> now >= wait.deadline,
        wait.next(event, now).expect == wait.expect,
        wait.next(event, now).deadline == wait.deadline,
{
}

impl PendingExchange {
    /// The exchange after a run of reports, each an event and the time at
    /// which it was reported, taken in one after the other.
    pub open spec fn after(self, reports: Seq<(Event, u128)>) -> PendingExchange
        decreases reports.len(),
    {
        if reports.len() == 0 {
            self
        } else {
            self.after(reports.drop_last()).next(reports.last().0, reports.last().1)
        }
    }

    /// What a run of reports that began at time `first` and has come to time
    /// `now` has made sure of: every further transmission has cost a full
    /// wait, and so has giving up.
    pub open spec fn paced(self, first: u128, now: u128) -> bool {
        &&& 1 <= self.attempts <= ATTEMPTS
        &&& match self.phase {
            ExchangePhase::Transmitting => now >= first + ATTEMPT_WINDOW * (self.attempts - 1),
            ExchangePhase::Receiving => self.deadline >= first + ATTEMPT_WINDOW * self.attempts,
            ExchangePhase::Sleeping => self.deadline >= first + ATTEMPT_WINDOW * self.attempts,
            ExchangePhase::Failed { error: DeliveryError::Timeout } => now >= first
                + ATTEMPT_WINDOW * ATTEMPTS,
            _ => true,
        }
    }
}

/// Whether the times of a run of reports never go back, and stay clear of
/// the last moment there is by at least one wait.
pub open spec fn in_order(reports: Seq<(Event, u128)>) -> bool {
    &&& forall|i: int, j: int|
        0 <= i <= j < reports.len() ==> (#[trigger] reports[i]).1 <= (#[trigger] reports[j]).1
    &&& forall|i: int| 0 <= i < reports.len() ==> (#[trigger] reports[i]).1 + ATTEMPT_WINDOW
        <= u128::MAX
}

/// Along any run of reports in order, an exchange keeps its pace.
pub proof fn lemma_run_paced(packet: Packet, broadcast: bool, reports: Seq<(Event, u128)>)
    requires
        in_order(reports),
        reports.len() > 0,
    ensures
        PendingExchange::started(packet, broadcast).after(reports).paced(
            reports[0].1,
            reports.last().1,
        ),
    decreases reports.len(),
{
    let start = PendingExchange::started(packet, broadcast);
    let front = reports.drop_last();
    if front.len() == 0 {
        assert(start.after(front) == start);
    } else {
        assert(in_order(front)) by {
            assert forall|i: int, j: int| 0 <= i <= j < front.len() implies (#[trigger] front[i]).1
                <= (#[trigger] front[j]).1 by {
                assert(front[i] == reports[i]);
                assert(front[j] == reports[j]);
            }
            assert forall|i: int| 0 <= i < front.len() implies (#[trigger] front[i]).1
                + ATTEMPT_WINDOW <= u128::MAX by {
                assert(front[i] == reports[i]);
            }
        }
        lemma_run_paced(packet, broadcast, front);
        assert(front[0] == reports[0]);
        assert(front.last() == reports[reports.len() - 2]);
    }
}

/// Giving up takes its time: if an exchange that started afresh has failed
/// by timeout after a run of reports in order, then three transmissions
/// were asked for, and at least three waits of `ATTEMPT_WINDOW` milliseconds
/// lie between the first report and the last.
pub proof fn lemma_timeout_takes_three_windows(
    packet: Packet,
    broadcast: bool,
    reports: Seq<(Event, u128)>,
)
    requires
        in_order(reports),
        PendingExchange::started(packet, broadcast).after(reports).phase == (ExchangePhase::Failed {
            error: DeliveryError::Timeout,
        }),
    ensures
        reports.len() > 0,
        PendingExchange::started(packet, broadcast).after(reports).attempts == ATTEMPTS,
        reports.last().1 - reports[0].1 >= ATTEMPT_WINDOW * ATTEMPTS,
        reports.last().1 - reports[0].1 >= 3000,
{
    if reports.len() > 0 {
        lemma_run_paced(packet, broadcast, reports);
        lemma_timeout_reached(PendingExchange::started(packet, broadcast), reports);
    }
}

/// An exchange that has failed by timeout after a run of reports, and had
/// not failed so before, has made all its transmissions.
proof fn lemma_timeout_reached(exchange: PendingExchange, reports: Seq<(Event, u128)>)
    requires
        !(exchange.phase is Failed),
        exchange.after(reports).phase == (ExchangePhase::Failed { error: DeliveryError::Timeout }),
    ensures
        exchange.after(reports).attempts >= ATTEMPTS,
    decreases reports.len(),
{
    if reports.len() > 0 {
        let before = exchange.after(reports.drop_last());
        if before.phase == (ExchangePhase::Failed { error: DeliveryError::Timeout }) {
            lemma_timeout_reached(exchange, reports.drop_last());
        }
    }
}

/// A wait does not outlast its time: when the clock is looked at from the
/// deadline on, after a rest or after a datagram that is not the awaited
/// answer, the exchange moves on to its next transmission or, after the
/// last one, fails by timeout.
pub proof fn lemma_window_closes(exchange: PendingExchange, event: Event, now: u128)
    requires
        now >= exchange.deadline,
        match (exchange.phase, event) {
            (ExchangePhase::Sleeping, Event::Completed) => true,
            (ExchangePhase::Receiving, Event::Received(frame, sender)) => !(reading(frame)
                is Silence) && !exchange.answered_by(reading(frame)),
            _ => false,
        },
    ensures
        exchange.attempts < ATTEMPTS ==> exchange.next(event, now).phase is Transmitting
            && exchange.next(event, now).attempts == exchange.attempts + 1,
        exchange.attempts >= ATTEMPTS ==> exchange.next(event, now).phase == (
        ExchangePhase::Failed { error: DeliveryError::Timeout }),
{
}

/// A wait for a packet does not outlast its deadline: when the clock is
/// looked at from the deadline on, after a rest or after a datagram that is
/// not wanted, the wait fails by timeout.
pub proof fn lemma_wait_closes(wait: Wait, event: Event, now: u128)
    requires
        now >= wait.deadline,
        match (wait.phase, event) {
            (WaitPhase::Sleeping, Event::Completed) => true,
            (WaitPhase::Receiving, Event::Received(frame, sender)) => match reading(frame) {
                Reading::Silence => false,
                Reading::Heard(packet) => !wait.expect.admits(packet),
                Reading::Noise => true,
            },
            _ => false,
        },
    ensures
        wait.next(event, now).phase == (WaitPhase::Failed { error: DeliveryError::Timeout }),
{
}

impl PendingExchange {
    /// How many transmissions were carried out along a run of reports: the
    /// reports of a completed action that came while a transmission was asked
    /// for.
    pub open spec fn transmitted(self, reports: Seq<(Event, u128)>) -> nat
        decreases reports.len(),
    {
        if reports.len() == 0 {
            0
        } else {
            let before = self.after(reports.drop_last());
            self.transmitted(reports.drop_last()) + if before.phase is Transmitting
                && reports.last().0 is Completed {
                1nat
            } else {
                0nat
            }
        }
    }
}

/// Along any run of reports the exchange sends the same packet in the same
/// way, and the count of its attempts is the count of the transmissions
/// carried out, plus the one that is asked for and not yet reported.  So
/// whenever a transmission is asked for it is one of the packet's frame, at
/// most three are ever carried out, a delivery that succeeded has taken as
/// many as `attempts` says, and one given up by timeout exactly three.
pub proof fn lemma_transmissions_counted(
    packet: Packet,
    broadcast: bool,
    reports: Seq<(Event, u128)>,
)
    ensures
        ({
            let start = PendingExchange::started(packet, broadcast);
            let end = start.after(reports);
            let sent = start.transmitted(reports);
            &&& end.packet == packet
            &&& end.broadcast == broadcast
            &&& 1 <= end.attempts <= ATTEMPTS
            &&& sent <= ATTEMPTS
            &&& match end.phase {
                ExchangePhase::Transmitting => sent == end.attempts - 1 && end.pending() == (
                ActionView::Transmit { bytes: wire_bytes(packet), broadcast }),
                ExchangePhase::Failed { error: DeliveryError::Transport(_) } => end.attempts - 1
                    <= sent <= end.attempts,
                ExchangePhase::Failed { error: DeliveryError::Timeout } => sent == ATTEMPTS,
                _ => sent == end.attempts,
            }
        }),
    decreases reports.len(),
{
    if reports.len() > 0 {
        lemma_transmissions_counted(packet, broadcast, reports.drop_last());
    }
}

/// The answer ends the exchange: if, after any run of reports, the exchange
/// is listening in its `k`-th attempt and the awaited `Ack` is received,
/// then a packet that went to the peer is delivered, and the answerer of a
/// broadcast is to be fixed as the peer; `k` transmissions have been carried
/// out, and no further one is asked for whatever is reported afterwards.
pub proof fn lemma_answer_ends_exchange(
    packet: Packet,
    broadcast: bool,
    reports: Seq<(Event, u128)>,
    frame: crate::frame::Frame,
    sender: Endpoint,
    now: u128,
    later: Seq<(Event, u128)>,
)
    requires
        PendingExchange::started(packet, broadcast).after(reports).phase is Receiving,
        PendingExchange::started(packet, broadcast).after(reports).answered_by(reading(frame)),
    ensures
        ({
            let start = PendingExchange::started(packet, broadcast);
            let k = start.after(reports).attempts;
            let run = reports.push((Event::Received(frame, sender), now));
            &&& start.after(run).phase == if broadcast {
                ExchangePhase::Binding { peer: sender }
            } else {
                ExchangePhase::Delivered { responder: None }
            }
            &&& start.transmitted(run) == k
            &&& start.transmitted(run + later) == k
            &&& start.after(run + later).attempts == k
            &&& start.after(run + later).phase is Binding || start.after(run + later).phase
                is Delivered || start.after(run + later).phase is Failed
            &&& !broadcast ==> start.after(run + later) == start.after(run)
        }),
    decreases later.len(),
{
    let start = PendingExchange::started(packet, broadcast);
    let run = reports.push((Event::Received(frame, sender), now));
    assert(run.drop_last() == reports);
    lemma_transmissions_counted(packet, broadcast, reports);
    if later.len() == 0 {
        assert(run + later == run);
    } else {
        lemma_answer_ends_exchange(
            packet,
            broadcast,
            reports,
            frame,
            sender,
            now,
            later.drop_last(),
        );
        assert((run + later).drop_last() == run + later.drop_last());
        assert((run + later).last() == later.last());
    }
}

} // verus!
