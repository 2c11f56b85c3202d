use olds::action::{read, Action, Event, Reading};
use olds::delivery::{
    deadline, DeliveryError, ExchangePhase, Expect, PendingExchange, Wait, WaitPhase, ATTEMPTS,
    ATTEMPT_WINDOW, POLL_INTERVAL,
};
use olds::frame::Frame;
use olds::packet::{Opcode, Packet};
use olds::transport::{receive, Arrival, Endpoint, TransportError, RX_SIZE};

const START: u128 = 1_700_000_000_000;

fn peer() -> Endpoint {
    Endpoint { ip: 0xc0a8_0117, port: 54545 }
}

fn datagram(bytes: &[u8], sender: Endpoint) -> Event {
    let mut rxbuffer = [0u8; RX_SIZE];
    let length = bytes.len().min(RX_SIZE);
    rxbuffer[..length].copy_from_slice(&bytes[..length]);
    let (frame, from) = receive(&rxbuffer, Arrival::Datagram { length, sender }).unwrap();
    Event::Received(frame, from)
}

fn nothing() -> Event {
    let rxbuffer = [0u8; RX_SIZE];
    let (frame, from) = receive(&rxbuffer, Arrival::WouldBlock).unwrap();
    Event::Received(frame, from)
}

/// Runs an exchange against a transport that answers the `answered`-th
/// transmission (never, if zero) and returns where it ended, the number of
/// transmissions and the time that passed.
fn run(packet: Packet, broadcast: bool, answered: u32, reply: Packet) -> (PendingExchange, u32, u128) {
    let mut exchange = PendingExchange::start(packet, broadcast);
    let mut now = START;
    let mut transmissions = 0u32;
    let mut queued: Option<Vec<u8>> = None;
    let mut steps = 0u32;
    loop {
        steps += 1;
        assert!(steps < 10_000);
        match exchange.action() {
            Action::Transmit { bytes, broadcast: by_broadcast } => {
                assert_eq!(by_broadcast, broadcast);
                assert_eq!(bytes, packet.to_bytes());
                transmissions += 1;
                if transmissions == answered {
                    queued = Some(reply.to_bytes());
                }
                exchange = exchange.step(Event::Completed, now);
            }
            Action::Receive => {
                let event = match queued.take() {
                    Some(bytes) => datagram(&bytes, peer()),
                    None => nothing(),
                };
                exchange = exchange.step(event, now);
            }
            Action::Sleep { millis } => {
                assert_eq!(millis, POLL_INTERVAL);
                now += millis as u128;
                exchange = exchange.step(Event::Completed, now);
            }
            Action::Connect { peer: to } => {
                assert_eq!(to, peer());
                exchange = exchange.step(Event::Completed, now);
            }
            Action::Stop => break,
            other => panic!("unexpected {:?}", other),
        }
    }
    (exchange, transmissions, now - START)
}

#[test]
fn send_succeeds_on_third_attempt() {
    let packet = Packet { opcode: Opcode::Data, number: 8, data: Some((1, 1)) };
    let (exchange, transmissions, elapsed) = run(packet, false, 3, Packet::ack(8));
    assert!(matches!(exchange.phase, ExchangePhase::Delivered { responder: None }));
    assert_eq!(transmissions, 3);
    assert_eq!(exchange.attempts, 3);
    assert!(elapsed >= 2000 && elapsed < 3000);
}

#[test]
fn send_succeeds_at_once() {
    let packet = Packet { opcode: Opcode::Ping, number: 3, data: None };
    let (exchange, transmissions, elapsed) = run(packet, false, 1, Packet::ack(3));
    assert!(matches!(exchange.phase, ExchangePhase::Delivered { responder: None }));
    assert_eq!(transmissions, 1);
    assert_eq!(elapsed, 0);
}

#[test]
fn send_times_out_after_three_attempts() {
    let packet = Packet { opcode: Opcode::Ping, number: 3, data: None };
    let (exchange, transmissions, elapsed) = run(packet, true, 0, Packet::ack(3));
    assert!(matches!(exchange.phase, ExchangePhase::Failed { error: DeliveryError::Timeout }));
    assert_eq!(transmissions, ATTEMPTS as u32);
    assert_eq!(transmissions, 3);
    assert!(elapsed >= 3 * ATTEMPT_WINDOW);
    assert!(elapsed >= 3000);
    assert!(elapsed < 3000 + 3 * POLL_INTERVAL as u128);
}

#[test]
fn mismatched_ack_does_not_satisfy_send() {
    let packet = Packet { opcode: Opcode::Ping, number: 3, data: None };
    let (exchange, transmissions, _) = run(packet, false, 1, Packet::ack(4));
    assert!(matches!(exchange.phase, ExchangePhase::Failed { error: DeliveryError::Timeout }));
    assert_eq!(transmissions, 3);
}

#[test]
fn mismatched_ack_is_passed_over_in_one_step() {
    let packet = Packet { opcode: Opcode::Ping, number: 3, data: None };
    let exchange = PendingExchange::start(packet, false).step(Event::Completed, START);
    assert!(matches!(exchange.phase, ExchangePhase::Receiving));
    assert_eq!(exchange.deadline, START + 1000);
    let after = exchange.step(datagram(&Packet::ack(2).to_bytes(), peer()), START + 10);
    assert!(matches!(after.phase, ExchangePhase::Receiving));
    assert!(matches!(after.action(), Action::Receive));
    let after = after.step(datagram(&Packet::ack(3).to_bytes(), peer()), START + 20);
    assert!(matches!(after.phase, ExchangePhase::Delivered { responder: None }));
}

#[test]
fn matching_number_with_other_opcode_does_not_satisfy_send() {
    let packet = Packet { opcode: Opcode::Ping, number: 3, data: None };
    let stray = Packet { opcode: Opcode::Ping, number: 3, data: None };
    let (exchange, _, _) = run(packet, false, 1, stray);
    assert!(matches!(exchange.phase, ExchangePhase::Failed { error: DeliveryError::Timeout }));
    let stray = Packet { opcode: Opcode::Data, number: 3, data: Some((0, 0)) };
    let (exchange, _, _) = run(packet, false, 2, stray);
    assert!(matches!(exchange.phase, ExchangePhase::Failed { error: DeliveryError::Timeout }));
}

#[test]
fn broadcast_binds_the_first_responder() {
    let packet = Packet { opcode: Opcode::Ping, number: 7, data: None };
    let (exchange, transmissions, _) = run(packet, true, 2, Packet::ack(7));
    assert_eq!(transmissions, 2);
    match exchange.phase {
        ExchangePhase::Delivered { responder } => assert_eq!(responder, Some(peer())),
        other => panic!("unexpected {:?}", other),
    }
}

#[test]
fn garbage_is_passed_over() {
    let packet = Packet { opcode: Opcode::Ping, number: 3, data: None };
    let exchange = PendingExchange::start(packet, false).step(Event::Completed, START);
    let after = exchange.step(datagram(&[9, 9, 9], peer()), START + 1);
    assert!(matches!(after.phase, ExchangePhase::Receiving));
    let after = after.step(datagram(&[0, 2, 0, 3, 0], peer()), START + 2);
    assert!(matches!(after.phase, ExchangePhase::Receiving));
    let after = after.step(nothing(), START + 3);
    assert!(matches!(after.phase, ExchangePhase::Sleeping));
    assert!(matches!(after.action(), Action::Sleep { millis: 50 }));
}

#[test]
fn transport_failure_ends_the_exchange() {
    let packet = Packet { opcode: Opcode::Ping, number: 3, data: None };
    let exchange = PendingExchange::start(packet, true);
    let after = exchange.step(Event::Failed(TransportError::Interfaces), START);
    assert!(matches!(
        after.phase,
        ExchangePhase::Failed { error: DeliveryError::Transport(TransportError::Interfaces) }
    ));
    assert!(matches!(after.action(), Action::Stop));
    let again = after.step(Event::Completed, START + 5);
    assert!(matches!(
        again.phase,
        ExchangePhase::Failed { error: DeliveryError::Transport(TransportError::Interfaces) }
    ));
    let exchange = PendingExchange::start(packet, false).step(Event::Completed, START);
    let after = exchange.step(Event::Failed(TransportError::Receive), START);
    assert!(matches!(
        after.phase,
        ExchangePhase::Failed { error: DeliveryError::Transport(TransportError::Receive) }
    ));
}

#[test]
fn unasked_events_change_nothing() {
    let packet = Packet { opcode: Opcode::Ping, number: 3, data: None };
    let exchange = PendingExchange::start(packet, false);
    let after = exchange.step(datagram(&Packet::ack(3).to_bytes(), peer()), START);
    assert!(matches!(after.phase, ExchangePhase::Transmitting));
    assert_eq!(after.attempts, 1);
    let after = after.step(Event::Applied { verdict: olds::action::Verdict::Open }, START);
    assert!(matches!(after.phase, ExchangePhase::Transmitting));
    let receiving = after.step(Event::Completed, START);
    let same = receiving.step(Event::Completed, START + 5000);
    assert!(matches!(same.phase, ExchangePhase::Receiving));
    assert_eq!(same.attempts, 1);
}

#[test]
fn deadline_saturates() {
    assert_eq!(deadline(5, 1000), 1005);
    assert_eq!(deadline(u128::MAX - 1000, 1000), u128::MAX);
    assert_eq!(deadline(u128::MAX - 999, 1000), u128::MAX);
    assert_eq!(deadline(u128::MAX, 30000), u128::MAX);
}

#[test]
fn reading_of_frames() {
    assert!(matches!(read(Frame::new()), Reading::Silence));
    assert!(matches!(read(Frame::from_bytes(&[])), Reading::Silence));
    assert!(matches!(read(Frame::from_bytes(&[1, 2, 3])), Reading::Noise));
    match read(Frame::from_bytes(&[0, 1, 0, 9])) {
        Reading::Heard(packet) => {
            assert!(packet.is_ping());
            assert_eq!(packet.number(), 9);
        }
        other => panic!("unexpected {:?}", other),
    }
}

fn run_wait(expect: Expect, limit: u128, arrivals: Vec<(u128, Vec<u8>)>) -> (Wait, u128, u32) {
    let mut wait = Wait::start(expect, START + limit, START);
    let mut now = START;
    let mut arrivals = arrivals;
    let mut attempts = 0u32;
    loop {
        match wait.action() {
            Action::Receive => {
                attempts += 1;
                let due = arrivals.first().map(|(at, _)| START + *at <= now).unwrap_or(false);
                let event = if due {
                    let (_, bytes) = arrivals.remove(0);
                    datagram(&bytes, peer())
                } else {
                    nothing()
                };
                wait = wait.step(event, now);
            }
            Action::Sleep { millis } => {
                now += millis as u128;
                wait = wait.step(Event::Completed, now);
            }
            Action::Stop => break,
            other => panic!("unexpected {:?}", other),
        }
    }
    (wait, now - START, attempts)
}

#[test]
fn wait_returns_first_match() {
    let ping = Packet { opcode: Opcode::Ping, number: 1, data: None };
    let data = Packet { opcode: Opcode::Data, number: 2, data: Some((0, 2)) };
    let later = Packet { opcode: Opcode::Data, number: 3, data: Some((1, 2)) };
    let arrivals = vec![
        (100, vec![1, 2, 3]),
        (100, ping.to_bytes()),
        (200, data.to_bytes()),
        (200, later.to_bytes()),
    ];
    let (wait, elapsed, _) = run_wait(Expect::Only(Opcode::Data), 30000, arrivals);
    match wait.phase {
        WaitPhase::Matched { packet, sender } => {
            assert_eq!(packet.number(), 2);
            assert_eq!(packet.data(), Some((0, 2)));
            assert_eq!(sender, peer());
        }
        other => panic!("unexpected {:?}", other),
    }
    assert_eq!(elapsed, 200);
}

#[test]
fn wait_for_any_opcode() {
    let ack = Packet::ack(9);
    let (wait, _, _) = run_wait(Expect::Any, 30000, vec![(0, vec![0, 0]), (0, ack.to_bytes())]);
    match wait.phase {
        WaitPhase::Matched { packet, .. } => assert!(packet.is_ack()),
        other => panic!("unexpected {:?}", other),
    }
    assert!(Expect::Any.accepts(ack));
    assert!(Expect::Only(Opcode::Ack).accepts(ack));
    assert!(!Expect::Only(Opcode::Ping).accepts(ack));
}

#[test]
fn wait_times_out_at_the_deadline() {
    let ping = Packet { opcode: Opcode::Ping, number: 1, data: None };
    let (wait, elapsed, attempts) =
        run_wait(Expect::Only(Opcode::Data), 30000, vec![(500, ping.to_bytes())]);
    assert!(matches!(wait.phase, WaitPhase::Failed { error: DeliveryError::Timeout }));
    assert_eq!(elapsed, 30000);
    assert!(attempts >= 600);
}

#[test]
fn wait_started_late_fails_at_once() {
    let wait = Wait::start(Expect::Any, START, START);
    assert!(matches!(wait.phase, WaitPhase::Failed { error: DeliveryError::Timeout }));
    assert!(matches!(wait.action(), Action::Stop));
    let wait = Wait::start(Expect::Any, START + 1, START);
    assert!(matches!(wait.phase, WaitPhase::Receiving));
    let failed = wait.step(Event::Failed(TransportError::Receive), START);
    assert!(matches!(
        failed.phase,
        WaitPhase::Failed { error: DeliveryError::Transport(TransportError::Receive) }
    ));
}

#[test]
fn results_of_finished_machines() {
    let packet = Packet { opcode: Opcode::Ping, number: 3, data: None };
    let exchange = PendingExchange::start(packet, true);
    assert_eq!(exchange.result(), None);
    let (done, _, _) = run(packet, true, 1, Packet::ack(3));
    assert_eq!(done.result(), Some(Ok(Some(peer()))));
    let (done, _, _) = run(packet, false, 1, Packet::ack(3));
    assert_eq!(done.result(), Some(Ok(None)));
    let (done, _, _) = run(packet, false, 0, Packet::ack(3));
    assert_eq!(done.result(), Some(Err(DeliveryError::Timeout)));

    let wait = Wait::start(Expect::Any, START + 10, START);
    assert_eq!(wait.result(), None);
    let ack = Packet::ack(9);
    let matched = wait.step(datagram(&ack.to_bytes(), peer()), START + 1);
    assert_eq!(matched.result(), Some(Ok((ack, peer()))));
    let late = wait.step(datagram(&[1, 2, 3], peer()), START + 10);
    assert_eq!(late.result(), Some(Err(DeliveryError::Timeout)));
}
