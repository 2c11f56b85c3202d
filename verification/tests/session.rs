use olds::action::{Action, Event, Verdict};
use olds::board::{Board, Player};
use olds::delivery::DeliveryError;
use olds::packet::{Opcode, Packet};
use olds::sequence::SequenceGenerator;
use olds::session::{conclude, Outcome, Role, Session, Side, Stage, TIMEOUT};
use olds::transport::{
    receive, Arrival, Endpoint, TransportError, LAN_PORT, LOOPBACK, RX_SIZE,
};
use std::collections::VecDeque;

/// One simulated machine: a session, its game, and its socket.
struct Peer {
    session: Session,
    counter: SequenceGenerator,
    board: Board,
    address: Endpoint,
    starts_at: u128,
    asleep_until: u128,
    sleeping: bool,
    inbox: VecDeque<(Vec<u8>, Endpoint)>,
    connected: Option<Endpoint>,
    moves: VecDeque<(usize, usize)>,
    applied: Vec<(u16, u16)>,
    sent: Vec<(Vec<u8>, bool)>,
    lan_port_taken: bool,
    deaf: bool,
    log: Vec<String>,
}

impl Peer {
    fn new(ip: u32, starts_at: u128, moves: &[(usize, usize)]) -> Peer {
        Peer {
            session: Session::start(),
            counter: SequenceGenerator::new(),
            board: Board::new(),
            address: Endpoint { ip, port: LAN_PORT },
            starts_at,
            asleep_until: 0,
            sleeping: false,
            inbox: VecDeque::new(),
            connected: None,
            moves: moves.iter().copied().collect(),
            applied: Vec::new(),
            sent: Vec::new(),
            lan_port_taken: false,
            deaf: false,
            log: Vec::new(),
        }
    }

    fn over(&self) -> bool {
        self.session.result().is_some()
    }

    fn player(&self) -> Player {
        self.session.role.player()
    }
}

const A: u32 = 0x0a00_0001;
const B: u32 = 0x0a00_0002;

/// Lets every peer carry out the actions its session asks for until all
/// sessions are over or `limit` milliseconds have passed.  Returns the time.
fn run(peers: &mut Vec<Peer>, limit: u128) -> u128 {
    run_from(peers, 0, limit)
}

/// As `run`, with the clock starting at `from`.
fn run_from(peers: &mut Vec<Peer>, from: u128, limit: u128) -> u128 {
    let mut now: u128 = from;
    let mut rounds = 0u64;
    while now <= limit && peers.iter().any(|p| !p.over()) {
        rounds += 1;
        assert!(rounds < 1_000_000);
        let mut progressed = false;
        for i in 0..peers.len() {
            if peers[i].over() || peers[i].starts_at > now || peers[i].asleep_until > now {
                continue;
            }
            progressed = true;
            if peers[i].sleeping {
                peers[i].sleeping = false;
                let before = peers[i].session;
                peers[i].session = before.step(Event::Completed, now, &mut peers[i].counter);
                continue;
            }
            let action = peers[i].session.action();
            let event = match action {
                Action::Open { port } => {
                    if port == LAN_PORT && peers[i].lan_port_taken {
                        Event::Failed(TransportError::Open)
                    } else {
                        if port != LAN_PORT {
                            peers[i].address.port = 40000;
                        }
                        Event::Completed
                    }
                }
                Action::Connect { peer } => {
                    peers[i].connected = Some(peer);
                    Event::Completed
                }
                Action::Transmit { bytes, broadcast } => {
                    let from = peers[i].address;
                    peers[i].sent.push((bytes.clone(), broadcast));
                    if broadcast {
                        for other in peers.iter_mut() {
                            if other.address.port == LAN_PORT && other.starts_at <= now {
                                other.inbox.push_back((bytes.clone(), from));
                            }
                        }
                        Event::Completed
                    } else {
                        match peers[i].connected {
                            Some(to) => {
                                for other in peers.iter_mut() {
                                    let local = to.ip == LOOPBACK && other.address.ip == from.ip;
                                    if (other.address == to || (local && other.address.port == to.port))
                                        && other.starts_at <= now
                                    {
                                        other.inbox.push_back((bytes.clone(), from));
                                    }
                                }
                                Event::Completed
                            }
                            None => Event::Failed(TransportError::Send),
                        }
                    }
                }
                Action::Receive => {
                    let mut rxbuffer = [0u8; RX_SIZE];
                    let mut arrival = Arrival::WouldBlock;
                    while let Some((bytes, sender)) = peers[i].inbox.pop_front() {
                        let wanted = match peers[i].connected {
                            Some(peer) => {
                                peer == sender || (peer.ip == LOOPBACK && peer.port == sender.port)
                            }
                            None => true,
                        };
                        if wanted && !peers[i].deaf {
                            let length = bytes.len().min(RX_SIZE);
                            rxbuffer[..length].copy_from_slice(&bytes[..length]);
                            arrival = Arrival::Datagram { length, sender };
                            break;
                        }
                    }
                    let (frame, sender) = receive(&rxbuffer, arrival).unwrap();
                    Event::Received(frame, sender)
                }
                Action::Sleep { millis } => {
                    peers[i].asleep_until = now + millis as u128;
                    peers[i].sleeping = true;
                    continue;
                }
                Action::ChooseMove => match peers[i].moves.pop_front() {
                    Some((row, column)) => {
                        let player = peers[i].player();
                        assert!(peers[i].board.place(row, column, player));
                        let verdict = peers[i].board.verdict(player);
                        Event::Moved { row, column, verdict }
                    }
                    None => {
                        peers[i].asleep_until = u128::MAX;
                        continue;
                    }
                },
                Action::ApplyMove { row, column } => {
                    let player = peers[i].player();
                    peers[i].applied.push((row, column));
                    if peers[i].board.place(row as usize, column as usize, player.opponent()) {
                        Event::Applied { verdict: peers[i].board.verdict(player) }
                    } else {
                        Event::Refused
                    }
                }
                Action::Stop => continue,
            };
            let before = peers[i].session;
            let after = before.step(event, now, &mut peers[i].counter);
            if std::mem::discriminant(&before.stage) != std::mem::discriminant(&after.stage) {
                let line = format!("{} {:?}", now, after.stage);
                peers[i].log.push(line);
            }
            peers[i].session = after;
        }
        if !progressed {
            let next = peers
                .iter()
                .filter(|p| !p.over())
                .map(|p| p.asleep_until.max(p.starts_at))
                .min()
                .unwrap();
            if next == u128::MAX {
                break;
            }
            now = next;
        }
    }
    now
}

fn pings_sent(peer: &Peer) -> Vec<u16> {
    peer.sent
        .iter()
        .filter_map(|(bytes, _)| Packet::decode(bytes).ok())
        .filter(|packet| packet.is_ping())
        .map(|packet| packet.number())
        .collect()
}

#[test]
fn end_to_end() {
    let mut a = Peer::new(A, 5000, &[(1, 1)]);
    for _ in 0..7 {
        a.counter.next();
    }
    let b = Peer::new(B, 0, &[]);
    let mut peers = vec![a, b];
    run(&mut peers, 20_000);
    let (a, b) = (&peers[0], &peers[1]);

    // B found nobody and was listening when A's Ping(seq=7) came.
    assert_eq!(pings_sent(b), vec![0, 0, 0]);
    assert_eq!(pings_sent(a), vec![7]);
    assert_eq!(a.sent[0], (vec![0, 1, 0, 7], true));
    // B answered Ack(seq=7), A bound B and became the initiator.
    assert_eq!(b.sent[3], (vec![0, 2, 0, 7], false));
    assert_eq!(a.session.role, Role::Initiator);
    assert_eq!(a.session.peer, Some(Endpoint { ip: B, port: LAN_PORT }));
    assert_eq!(a.connected, Some(Endpoint { ip: B, port: LAN_PORT }));
    assert_eq!(a.session.transport.send_unicast(), Ok(Endpoint { ip: B, port: LAN_PORT }));
    assert_eq!(b.session.transport.send_unicast(), Ok(Endpoint { ip: A, port: LAN_PORT }));
    assert!(a.session.is_multiplayer());
    assert!(!a.session.is_localhost());
    assert_eq!(b.session.role, Role::Responder);
    assert_eq!(b.session.peer, Some(Endpoint { ip: A, port: LAN_PORT }));
    // A sent Data(seq=8, row=1, col=1), B answered Ack(seq=8) and applied the move.
    assert_eq!(a.sent[1], (vec![0, 3, 0, 8, 0, 1, 0, 1], false));
    assert_eq!(a.sent.len(), 2);
    assert_eq!(b.sent[4], (vec![0, 2, 0, 8], false));
    assert_eq!(b.applied, vec![(1, 1)]);
    // Both sides agree on one occupied cell.
    assert_eq!(a.board.cell(1, 1), Some('x'));
    assert_eq!(b.board.cell(1, 1), Some('x'));
    assert_eq!(a.board.slots(), 8);
    assert_eq!(b.board.slots(), 8);
    for i in 0..3 {
        for j in 0..3 {
            assert_eq!(a.board.cell(i, j), b.board.cell(i, j));
        }
    }
    // It is B's turn now.
    assert!(matches!(a.session.stage, Stage::Listening { .. }));
    assert!(matches!(b.session.stage, Stage::Choosing));
}

#[test]
fn discovery_exhaustion() {
    let mut peers = vec![Peer::new(A, 0, &[])];
    let end = run(&mut peers, 100_000);
    let a = &peers[0];
    assert_eq!(
        a.session.result(),
        Some(Outcome::Fallback { cause: DeliveryError::Timeout })
    );
    assert!(!a.session.is_multiplayer());
    assert_eq!(a.session.peer, None);
    assert_eq!(pings_sent(a), vec![0, 0, 0]);
    assert_eq!(a.sent.len(), 3);
    assert!(end >= 3000 + TIMEOUT);
    assert!(end < 3000 + TIMEOUT + 500);
    assert!(matches!(a.session.action(), Action::Stop));
    let mut counter = SequenceGenerator::new();
    let still = a.session.step(Event::Completed, end + 1, &mut counter);
    assert_eq!(still, a.session);
    assert_eq!(counter.next(), 0);
}

#[test]
fn a_whole_game() {
    let a = Peer::new(A, 4000, &[(0, 0), (0, 1), (0, 2)]);
    let b = Peer::new(B, 0, &[(1, 0), (1, 1), (2, 2)]);
    let mut peers = vec![a, b];
    run(&mut peers, 60_000);
    let (a, b) = (&peers[0], &peers[1]);
    assert_eq!(a.session.result(), Some(Outcome::WinLocal));
    assert_eq!(b.session.result(), Some(Outcome::WinRemote));
    assert_eq!(a.board.check_win(), Some('x'));
    assert_eq!(b.board.check_win(), Some('x'));
    assert_eq!(a.applied, vec![(1, 0), (1, 1)]);
    assert_eq!(b.applied, vec![(0, 0), (0, 1), (0, 2)]);
    assert_eq!(a.board.draw_board(), b.board.draw_board());
    assert_eq!(a.board.slots(), 4);
}

#[test]
fn a_drawn_game() {
    let a = Peer::new(A, 4000, &[(0, 0), (0, 2), (1, 0), (2, 1), (1, 2)]);
    let b = Peer::new(B, 0, &[(0, 1), (1, 1), (2, 0), (2, 2)]);
    let mut peers = vec![a, b];
    run(&mut peers, 60_000);
    let (a, b) = (&peers[0], &peers[1]);
    assert_eq!(a.board.draw_board(), b.board.draw_board());
    assert_eq!(a.board.slots(), 0);
    assert_eq!(a.session.result(), Some(Outcome::Draw));
    assert_eq!(b.session.result(), Some(Outcome::Draw));
}

#[test]
fn silent_peer_ends_the_game() {
    let a = Peer::new(A, 4000, &[(0, 0), (0, 1)]);
    let b = Peer::new(B, 0, &[]);
    let mut peers = vec![a, b];
    let end = run(&mut peers, 100_000);
    let a = &peers[0];
    assert_eq!(
        a.session.result(),
        Some(Outcome::Disconnected { cause: DeliveryError::Timeout })
    );
    assert!(end >= 4000 + TIMEOUT);
    assert_eq!(a.board.slots(), 8);
}

#[test]
fn unacknowledged_move_ends_the_game() {
    let a = Peer::new(A, 4000, &[(0, 0), (0, 1)]);
    let b = Peer::new(B, 0, &[(2, 2)]);
    let mut peers = vec![a, b];
    let mut now = 0;
    // run until A has been answered once, then make B deaf
    for limit in (4000..40_000).step_by(10) {
        now = run_from(&mut peers, now, limit);
        if peers[0].applied.len() == 1 {
            break;
        }
    }
    assert_eq!(peers[0].applied, vec![(2, 2)]);
    peers[1].deaf = true;
    let end = run_from(&mut peers, now, now + 100_000);
    let a = &peers[0];
    assert_eq!(
        a.session.result(),
        Some(Outcome::Disconnected { cause: DeliveryError::Timeout })
    );
    let data: Vec<&(Vec<u8>, bool)> = a.sent.iter().filter(|(bytes, _)| bytes.len() == 8).collect();
    assert_eq!(data.len(), 1 + 3);
    // the move went out at most one rest before `now`
    assert!(end + 50 >= now + 3000);
}

#[test]
fn peer_on_the_same_machine() {
    let first = Peer::new(A, 0, &[(2, 2)]);
    let mut second = Peer::new(A, 4000, &[(1, 1)]);
    second.lan_port_taken = true;
    let mut peers = vec![first, second];
    run(&mut peers, 20_000);
    let (first, second) = (&peers[0], &peers[1]);
    assert!(second.session.is_localhost());
    assert!(second.session.is_multiplayer());
    assert_eq!(second.session.role, Role::Initiator);
    assert_eq!(second.session.peer, Some(Endpoint { ip: LOOPBACK, port: LAN_PORT }));
    assert_eq!(second.sent[0], (vec![0, 1, 0, 0], false));
    assert_eq!(first.session.role, Role::Responder);
    assert_eq!(first.applied, vec![(1, 1)]);
    assert_eq!(second.applied, vec![(2, 2)]);
}

#[test]
fn alone_on_the_machine_without_the_port() {
    let mut a = Peer::new(A, 0, &[]);
    a.lan_port_taken = true;
    let mut peers = vec![a];
    let end = run(&mut peers, 100_000);
    let a = &peers[0];
    assert!(a.session.is_localhost());
    assert_eq!(
        a.session.result(),
        Some(Outcome::Fallback { cause: DeliveryError::Timeout })
    );
    assert_eq!(a.sent.len(), 3);
    assert!(a.sent.iter().all(|(_, broadcast)| !broadcast));
    assert!(end >= 3000 + TIMEOUT);
}

#[test]
fn no_socket_at_all() {
    let mut counter = SequenceGenerator::new();
    let session = Session::start();
    assert!(matches!(session.action(), Action::Open { port: 54545 }));
    let session = session.step(Event::Failed(TransportError::Open), 10, &mut counter);
    assert!(matches!(session.action(), Action::Open { port: 0 }));
    let session = session.step(Event::Failed(TransportError::Open), 20, &mut counter);
    assert_eq!(
        session.result(),
        Some(Outcome::Fallback { cause: DeliveryError::Transport(TransportError::Open) })
    );
    assert_eq!(counter.next(), 0);
}

#[test]
fn broadcast_that_cannot_be_sent_leads_to_accepting() {
    let mut counter = SequenceGenerator::new();
    let session = Session::start().step(Event::Completed, 10, &mut counter);
    assert!(matches!(session.action(), Action::Transmit { broadcast: true, .. }));
    let session = session.step(Event::Failed(TransportError::Interfaces), 20, &mut counter);
    match session.stage {
        Stage::Accepting { wait } => assert_eq!(wait.deadline, 20 + 30_000),
        other => panic!("unexpected {:?}", other),
    }
    assert!(matches!(session.action(), Action::Receive));
    let session = session.step(Event::Failed(TransportError::Receive), 30, &mut counter);
    assert_eq!(
        session.result(),
        Some(Outcome::Fallback { cause: DeliveryError::Transport(TransportError::Receive) })
    );
}

fn datagram(packet: Packet, sender: Endpoint) -> Event {
    let bytes = packet.to_bytes();
    let mut rxbuffer = [0u8; RX_SIZE];
    rxbuffer[..bytes.len()].copy_from_slice(&bytes);
    let (frame, from) =
        receive(&rxbuffer, Arrival::Datagram { length: bytes.len(), sender }).unwrap();
    Event::Received(frame, from)
}

fn confirmed_responder(counter: &mut SequenceGenerator) -> Session {
    let peer = Endpoint { ip: B, port: LAN_PORT };
    let session = Session::start()
        .step(Event::Completed, 0, counter)
        .step(Event::Failed(TransportError::Send), 0, counter);
    let ping = Packet { opcode: Opcode::Ping, number: 40, data: None };
    let session = session.step(datagram(ping, peer), 100, counter);
    assert_eq!(session.action(), Action::Connect { peer });
    assert!(!session.is_multiplayer());
    let session = session.step(Event::Completed, 100, counter);
    assert_eq!(session.action(), Action::Transmit { bytes: vec![0, 2, 0, 40], broadcast: false });
    assert!(!session.is_multiplayer());
    let session = session.step(Event::Completed, 100, counter);
    assert_eq!(session.peer, Some(peer));
    assert_eq!(session.role, Role::Responder);
    session
}

#[test]
fn move_off_the_board_is_passed_over() {
    let mut counter = SequenceGenerator::new();
    let peer = Endpoint { ip: B, port: LAN_PORT };
    let session = confirmed_responder(&mut counter);
    assert!(matches!(session.action(), Action::Receive));
    let wild = Packet { opcode: Opcode::Data, number: 41, data: Some((3, 0)) };
    let session = session.step(datagram(wild, peer), 200, &mut counter);
    assert!(matches!(session.stage, Stage::Listening { .. }));
    assert!(matches!(session.action(), Action::Receive));
    let wild = Packet { opcode: Opcode::Data, number: 41, data: Some((0, 65535)) };
    let session = session.step(datagram(wild, peer), 300, &mut counter);
    assert!(matches!(session.action(), Action::Receive));
    let good = Packet { opcode: Opcode::Data, number: 42, data: Some((2, 0)) };
    let session = session.step(datagram(good, peer), 400, &mut counter);
    assert_eq!(session.action(), Action::Transmit { bytes: vec![0, 2, 0, 42], broadcast: false });
    let session = session.step(Event::Completed, 400, &mut counter);
    assert_eq!(session.action(), Action::ApplyMove { row: 2, column: 0 });
    let session = session.step(Event::Applied { verdict: Verdict::Open }, 400, &mut counter);
    assert_eq!(session.action(), Action::ChooseMove);
    let wild = Packet { opcode: Opcode::Data, number: 43, data: Some((9, 9)) };
    let listening = confirmed_responder(&mut counter);
    let late = listening.step(datagram(wild, peer), 100 + TIMEOUT, &mut counter);
    assert_eq!(
        late.result(),
        Some(Outcome::Disconnected { cause: DeliveryError::Timeout })
    );
}

#[test]
fn confirmation_is_final() {
    let mut counter = SequenceGenerator::new();
    let peer = Endpoint { ip: B, port: LAN_PORT };
    let stranger = Endpoint { ip: 0x0a00_0009, port: LAN_PORT };
    let mut session = confirmed_responder(&mut counter);
    let ping = Packet { opcode: Opcode::Ping, number: 1, data: None };
    let events = vec![
        datagram(ping, stranger),
        datagram(Packet::ack(0), stranger),
        Event::Completed,
        Event::Moved { row: 0, column: 0, verdict: Verdict::Open },
        datagram(Packet { opcode: Opcode::Data, number: 2, data: Some((1, 1)) }, stranger),
        Event::Completed,
        Event::Applied { verdict: Verdict::Open },
        Event::Moved { row: 0, column: 0, verdict: Verdict::Open },
        Event::Completed,
        datagram(Packet::ack(0), stranger),
        Event::Failed(TransportError::Receive),
        Event::Completed,
    ];
    let mut now = 1000;
    for event in events {
        session = session.step(event, now, &mut counter);
        now += 10;
        assert_eq!(session.peer, Some(peer));
        assert_eq!(session.role, Role::Responder);
    }
    assert!(session.result().is_some());
}

#[test]
fn verdicts_become_outcomes() {
    assert_eq!(conclude(Verdict::Open), None);
    assert_eq!(conclude(Verdict::LocalWins), Some(Outcome::WinLocal));
    assert_eq!(conclude(Verdict::RemoteWins), Some(Outcome::WinRemote));
    assert_eq!(conclude(Verdict::Draw), Some(Outcome::Draw));
    assert_eq!(Role::Initiator.player(), Player::X);
    assert_eq!(Role::Responder.player(), Player::O);
}

#[test]
fn sequence_numbers_are_used_for_requests_only() {
    let mut counter = SequenceGenerator::new();
    let session = confirmed_responder(&mut counter);
    // one Ping was numbered; the Ack repeated the peer's number
    assert_eq!(counter.next(), 1);
    let peer = Endpoint { ip: B, port: LAN_PORT };
    let data = Packet { opcode: Opcode::Data, number: 500, data: Some((0, 0)) };
    let session = session
        .step(datagram(data, peer), 200, &mut counter)
        .step(Event::Completed, 200, &mut counter)
        .step(Event::Applied { verdict: Verdict::Open }, 200, &mut counter);
    let session =
        session.step(Event::Moved { row: 1, column: 2, verdict: Verdict::Open }, 300, &mut counter);
    assert_eq!(
        session.action(),
        Action::Transmit { bytes: vec![0, 3, 0, 2, 0, 1, 0, 2], broadcast: false }
    );
    assert_eq!(counter.next(), 3);
}

#[test]
fn advance_reads_the_clock() {
    let mut counter = SequenceGenerator::new();
    let session = Session::start().advance(Event::Completed, &mut counter);
    assert!(matches!(session.action(), Action::Transmit { broadcast: true, .. }));
    let session = session.advance(Event::Completed, &mut counter);
    match session.stage {
        Stage::Probing { exchange } => assert!(exchange.deadline > 1_600_000_000_000),
        other => panic!("unexpected {:?}", other),
    }
}

#[test]
fn who_lost() {
    assert_eq!(Outcome::WinLocal.loser(), Some(Side::Remote));
    assert_eq!(Outcome::WinRemote.loser(), Some(Side::Local));
    assert_eq!(Outcome::Draw.loser(), None);
    assert_eq!(Outcome::Disconnected { cause: DeliveryError::Timeout }.loser(), Some(Side::Local));
    assert_eq!(
        Outcome::Disconnected { cause: DeliveryError::Transport(TransportError::Send) }.loser(),
        Some(Side::Local)
    );
    assert_eq!(Outcome::Fallback { cause: DeliveryError::Timeout }.loser(), None);
}

fn raw(bytes: &[u8], sender: Endpoint) -> Event {
    let mut rxbuffer = [0u8; RX_SIZE];
    let length = bytes.len().min(RX_SIZE);
    rxbuffer[..length].copy_from_slice(&bytes[..length]);
    let (frame, from) = receive(&rxbuffer, Arrival::Datagram { length, sender }).unwrap();
    Event::Received(frame, from)
}

#[test]
fn repeated_move_is_not_taken_again() {
    let mut counter = SequenceGenerator::new();
    let peer = Endpoint { ip: B, port: LAN_PORT };
    let session = confirmed_responder(&mut counter);
    assert_eq!(session.last_move, None);
    let first = Packet { opcode: Opcode::Data, number: 8, data: Some((1, 1)) };
    let session = session.step(datagram(first, peer), 200, &mut counter);
    assert_eq!(session.last_move, Some(first));
    assert_eq!(session.action(), Action::Transmit { bytes: vec![0, 2, 0, 8], broadcast: false });
    let session = session
        .step(Event::Completed, 200, &mut counter)
        .step(Event::Applied { verdict: Verdict::Open }, 200, &mut counter)
        .step(Event::Moved { row: 0, column: 0, verdict: Verdict::Open }, 300, &mut counter)
        .step(Event::Completed, 300, &mut counter);
    // the repeat comes while our own move is under way, and again afterwards
    let session = session.step(datagram(first, peer), 310, &mut counter);
    assert!(matches!(session.stage, Stage::Moving { .. }));
    let session = session.step(datagram(Packet::ack(1), peer), 320, &mut counter);
    assert!(matches!(session.stage, Stage::Listening { .. }));
    let session = session.step(datagram(first, peer), 330, &mut counter);
    assert!(matches!(session.stage, Stage::Listening { .. }));
    assert_eq!(session.action(), Action::Receive);
    assert_eq!(session.last_move, Some(first));
    // the next move has another number and is taken
    let second = Packet { opcode: Opcode::Data, number: 9, data: Some((1, 1)) };
    let session = session.step(datagram(second, peer), 340, &mut counter);
    assert_eq!(session.last_move, Some(second));
    assert_eq!(session.action(), Action::Transmit { bytes: vec![0, 2, 0, 9], broadcast: false });
}

#[test]
fn same_number_for_another_cell_is_a_new_move() {
    let mut counter = SequenceGenerator::new();
    let peer = Endpoint { ip: B, port: LAN_PORT };
    let session = confirmed_responder(&mut counter);
    let first = Packet { opcode: Opcode::Data, number: 8, data: Some((1, 1)) };
    let session = session
        .step(datagram(first, peer), 200, &mut counter)
        .step(Event::Completed, 200, &mut counter)
        .step(Event::Applied { verdict: Verdict::Open }, 200, &mut counter)
        .step(Event::Moved { row: 0, column: 0, verdict: Verdict::Open }, 300, &mut counter)
        .step(Event::Completed, 300, &mut counter)
        .step(datagram(Packet::ack(1), peer), 320, &mut counter);
    assert!(matches!(session.stage, Stage::Listening { .. }));
    assert_eq!(session.last_move, Some(first));
    // the same number, but a free cell
    let other = Packet { opcode: Opcode::Data, number: 8, data: Some((2, 2)) };
    let session = session.step(datagram(other, peer), 330, &mut counter);
    assert_eq!(session.last_move, Some(other));
    assert_eq!(session.action(), Action::Transmit { bytes: vec![0, 2, 0, 8], broadcast: false });
    let session = session.step(Event::Completed, 330, &mut counter);
    assert_eq!(session.action(), Action::ApplyMove { row: 2, column: 2 });
    let session = session.step(Event::Applied { verdict: Verdict::Open }, 330, &mut counter);
    assert_eq!(session.action(), Action::ChooseMove);
}

#[test]
fn refused_move_leaves_the_turn_with_the_peer() {
    let mut counter = SequenceGenerator::new();
    let peer = Endpoint { ip: B, port: LAN_PORT };
    let session = confirmed_responder(&mut counter);
    let deadline = match session.stage {
        Stage::Listening { wait } => wait.deadline,
        other => panic!("unexpected {:?}", other),
    };
    assert_eq!(deadline, 100 + TIMEOUT);
    let taken = Packet { opcode: Opcode::Data, number: 8, data: Some((1, 1)) };
    let session = session
        .step(datagram(taken, peer), 200, &mut counter)
        .step(Event::Completed, 200, &mut counter);
    assert_eq!(session.action(), Action::ApplyMove { row: 1, column: 1 });
    let refused = session.step(Event::Refused, 250, &mut counter);
    match refused.stage {
        Stage::Listening { wait } => assert_eq!(wait.deadline, deadline),
        other => panic!("unexpected {:?}", other),
    }
    assert_eq!(refused.action(), Action::Receive);
    assert_eq!(refused.peer, Some(peer));
    // the same packet again is a repeat; a move elsewhere is taken
    let again = refused.step(datagram(taken, peer), 260, &mut counter);
    assert_eq!(again.action(), Action::Receive);
    let next = Packet { opcode: Opcode::Data, number: 9, data: Some((0, 2)) };
    let moved = again.step(datagram(next, peer), 270, &mut counter);
    assert_eq!(moved.action(), Action::Transmit { bytes: vec![0, 2, 0, 9], broadcast: false });
    // refused at the deadline, the session gives up
    let late = session.step(Event::Refused, deadline, &mut counter);
    assert_eq!(
        late.result(),
        Some(Outcome::Disconnected { cause: DeliveryError::Timeout })
    );
}

#[test]
fn the_first_move_of_a_game_is_taken_whatever_its_number() {
    for number in [0u16, 1, 8, 40, 65535] {
        let mut counter = SequenceGenerator::new();
        let peer = Endpoint { ip: B, port: LAN_PORT };
        let session = confirmed_responder(&mut counter);
        assert_eq!(session.last_move, None);
        let first = Packet { opcode: Opcode::Data, number, data: Some((1, 1)) };
        let session = session.step(datagram(first, peer), 200, &mut counter);
        assert_eq!(
            session.action(),
            Action::Transmit { bytes: Packet::ack(number).to_bytes(), broadcast: false }
        );
        let session = session.step(Event::Completed, 200, &mut counter);
        assert_eq!(session.action(), Action::ApplyMove { row: 1, column: 1 });
        let mut board = Board::new();
        assert!(board.place(1, 1, session.role.player().opponent()));
        assert_eq!(board.cell(1, 1), Some('x'));
        assert_eq!(board.slots(), 8);
    }
}

#[test]
fn overlong_datagram_is_never_a_move() {
    let mut counter = SequenceGenerator::new();
    let peer = Endpoint { ip: B, port: LAN_PORT };
    let session = confirmed_responder(&mut counter);
    let long = [0u8, 3, 0, 8, 0, 1, 0, 1, 0xff];
    let session = session.step(raw(&long, peer), 200, &mut counter);
    assert!(matches!(session.stage, Stage::Listening { .. }));
    assert_eq!(session.action(), Action::Receive);
    assert_eq!(session.last_move, None);
    let longer = [0u8, 3, 0, 8, 0, 1, 0, 1, 0, 0, 0, 0];
    let session = session.step(raw(&longer, peer), 210, &mut counter);
    assert!(matches!(session.stage, Stage::Listening { .. }));
    let session = session.step(raw(&long[..8], peer), 220, &mut counter);
    assert_eq!(session.action(), Action::Transmit { bytes: vec![0, 2, 0, 8], broadcast: false });
}
