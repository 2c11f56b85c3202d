//! What the transport decides without touching a socket: where a broadcast
//! goes, and what a receive attempt amounts to.
//!
//! The socket itself belongs to the caller.  It is bound to the well-known
//! port if that is free, sends broadcasts, and never blocks.

use crate::frame::Frame;
use crate::packet::{decode_spec, frame_packet, MAX_SIZE};
use network_interface::Addr;
use network_interface::NetworkInterface;
use network_interface::NetworkInterfaceConfig;
use vstd::prelude::*;

verus! {

/// The port every peer listens on and every broadcast goes to.
pub const LAN_PORT: u16 = 54545;

/// Length in bytes of the buffer that datagrams are received into: one byte
/// more than the longest frame, so that a datagram that is too long to be a
/// frame shows as such instead of being cut to the length of a frame.
pub const RX_SIZE: usize = MAX_SIZE + 1;

/// The IPv4 address `127.0.0.1` as a number.
pub const LOOPBACK: u32 = 0x7f00_0001;

/// An IPv4 address, as the number its four octets spell, and a UDP port.
#[derive(Clone, Copy, Debug, PartialEq, Eq, Structural)]
pub struct Endpoint {
    pub ip: u32,
    pub port: u16,
}

/// An address of either family, as the number its octets spell.
#[derive(Clone, Copy, Debug, PartialEq, Eq, Structural)]
pub enum IpAddress {
    V4(u32),
    V6(u128),
}

/// The address data of a network interface.
#[derive(Clone, Copy, Debug, PartialEq, Eq, Structural)]
pub struct InterfaceAddr {
    /// The broadcast address of the interface, if it has one.
    pub broadcast: Option<IpAddress>,
}

/// A local network interface, reduced to what a broadcast needs to know.
#[derive(Clone, Copy, Debug, PartialEq, Eq, Structural)]
pub struct Interface {
    /// The address data of the interface, if it has an address.
    pub addr: Option<InterfaceAddr>,
}

/// A failure of the socket or of the system underneath it.
#[derive(Clone, Copy, Debug, PartialEq, Eq, Structural)]
pub enum TransportError {
    /// A unicast was asked for before any peer was fixed.
    NotConnected,
    /// No local port could be bound, or the socket could not be configured.
    Open,
    /// The peer address could not be fixed.
    Connect,
    /// The local network interfaces could not be listed.
    Interfaces,
    /// A datagram could not be sent.
    Send,
    /// The socket failed while it was asked for a datagram.
    Receive,
}

/// What one non-blocking receive attempt on the socket came to.
#[derive(Clone, Copy, Debug, PartialEq, Eq, Structural)]
pub enum Arrival {
    /// A datagram was queued, and `length` bytes of it were put into the
    /// receive buffer: all of it, or as much as the buffer holds.
    Datagram { length: usize, sender: Endpoint },
    /// Nothing was queued.
    WouldBlock,
    /// The socket reported an error.
    Failed,
}

/// What is known of the socket: whether it holds the well-known port, and
/// the peer it is fixed to, if any.
#[derive(Clone, Copy, Debug, PartialEq, Eq, Structural)]
pub struct Transport {
    /// The only address that unicasts go to and datagrams are taken from.
    pub peer: Option<Endpoint>,
    /// Whether the socket had to settle for another port than the well-known
    /// one, so that broadcasts of other machines do not reach it.
    pub local_only: bool,
}

impl Transport {
    /// The state of a socket that has just been bound: to the well-known
    /// port if `bound` says so, to some other port if not.  No peer is fixed.
    pub fn new(bound: bool) -> (transport: Transport)
        ensures
            transport.peer is None,
            transport.local_only == !bound,
    {
        Transport { peer: None, local_only: !bound }
    }

    /// Whether only a peer on this machine can be reached.
    pub fn is_localhost(&self) -> (yes: bool)
        ensures
            yes == self.local_only,
    {
        self.local_only
    }

    /// Whether a peer is fixed.
    pub fn is_multiplayer(&self) -> (yes: bool)
        ensures
            yes == (self.peer is Some),
    {
        self.peer.is_some()
    }

    /// Fixes `address` as the peer, in place of any peer fixed before.
    pub fn bind_peer(&mut self, address: Endpoint)
        ensures
            final(self).peer == Some(address),
            final(self).local_only == old(self).local_only,
    {
        self.peer = Some(address);
    }

    /// Where a unicast goes: to the fixed peer.  Without one it cannot be
    /// sent.
    pub fn send_unicast(&self) -> (destination: Result<Endpoint, TransportError>)
        ensures
            destination == match self.peer {
                Some(peer) => Ok::<Endpoint, TransportError>(peer),
                None => Err::<Endpoint, TransportError>(TransportError::NotConnected),
            },
    {
        match self.peer {
            Some(peer) => Ok(peer),
            None => Err(TransportError::NotConnected),
        }
    }

    /// Where a broadcast on `port` goes, given the local interfaces: one
    /// datagram to each interface that has an IPv4 broadcast address.
    pub fn send_broadcast(&self, interfaces: &Vec<Interface>, port: u16) -> (destinations: Vec<
        Endpoint,
    >)
        ensures
            destinations@ == targets(interfaces@, port),
    {
        broadcast_targets(interfaces, port)
    }
}

#[verifier::external_type_specification]
#[verifier::external_body]
pub struct ExNetworkInterface(NetworkInterface);

#[verifier::external_type_specification]
#[verifier::external_body]
pub struct ExInterfaceError(network_interface::Error);

/// `NetworkInterface::show`: the network interfaces of this machine as the
/// system reports them at this moment, in no particular order, or the
/// system's refusal.
#[verifier::external_body]
fn show() -> (interfaces: Result<Vec<NetworkInterface>, network_interface::Error>) {
    NetworkInterface::show()
}

/// Copies out of a `NetworkInterface` what a broadcast reads of it: whether
/// its `addr` is set and, if so, that address's `broadcast` field.
#[verifier::external_body]
fn describe(entry: &NetworkInterface) -> (interface: Interface) {
    match entry.addr {
        None => Interface { addr: None },
        Some(Addr::V4(v4)) => {
            let broadcast = v4.broadcast.map(|b| IpAddress::V4(u32::from(b)));
            Interface { addr: Some(InterfaceAddr { broadcast }) }
        },
        Some(Addr::V6(v6)) => {
            let broadcast = v6.broadcast.map(|b| IpAddress::V6(u128::from(b)));
            Interface { addr: Some(InterfaceAddr { broadcast }) }
        },
    }
}

/// Where a broadcast on `port` goes for one interface: to its broadcast
/// address if it has an address, that address has a broadcast address, and
/// the broadcast address is IPv4.
pub open spec fn target_of(interface: Interface, port: u16) -> Option<Endpoint> {
    match interface.addr {
        Some(InterfaceAddr { broadcast: Some(IpAddress::V4(ip)) }) => Some(Endpoint { ip, port }),
        _ => None,
    }
}

/// Where a broadcast on `port` goes for a list of interfaces: the targets of
/// those interfaces that have one, in the order of the list.
pub open spec fn targets(interfaces: Seq<Interface>, port: u16) -> Seq<Endpoint>
    decreases interfaces.len(),
{
    if interfaces.len() == 0 {
        Seq::empty()
    } else {
        let before = targets(interfaces.drop_last(), port);
        match target_of(interfaces.last(), port) {
            Some(endpoint) => before.push(endpoint),
            None => before,
        }
    }
}

/// The destinations of a broadcast on `port` over the given interfaces.  An
/// interface without an IPv4 broadcast address is passed over.
pub fn broadcast_targets(interfaces: &Vec<Interface>, port: u16) -> (destinations: Vec<Endpoint>)
    ensures
        destinations@ == targets(interfaces@, port),
{
    let mut destinations: Vec<Endpoint> = Vec::new();
    let mut i: usize = 0;
    while i < interfaces.len()
        invariant
            i <= interfaces.len(),
            destinations@ == targets(interfaces@.take(i as int), port),
        decreases interfaces.len() - i,
    {
        proof {
            assert(interfaces@.take(i + 1).drop_last() == interfaces@.take(i as int));
        }
        match interfaces[i].addr {
            Some(addr) => match addr.broadcast {
                Some(IpAddress::V4(ip)) => {
                    destinations.push(Endpoint { ip, port });
                },
                _ => {},
            },
            None => {},
        }
        i += 1;
    }
    proof {
        assert(interfaces@.take(interfaces@.len() as int) == interfaces@);
    }
    destinations
}

/// The destinations of a broadcast on `port` over the interfaces this machine
/// has right now.  That the interfaces cannot be listed at all is an error:
/// without them no peer can be found.
pub fn broadcast(port: u16) -> (result: Result<Vec<Endpoint>, TransportError>)
    ensures
        match result {
            Ok(destinations) => exists|interfaces: Seq<Interface>|
                destinations@ == targets(interfaces, port),
            Err(error) => error == TransportError::Interfaces,
        },
{
    match show() {
        Ok(entries) => {
            let mut interfaces: Vec<Interface> = Vec::new();
            let mut i: usize = 0;
            while i < entries.len()
                invariant
                    i <= entries.len(),
                decreases entries.len() - i,
            {
                interfaces.push(describe(&entries[i]));
                i += 1;
            }
            Ok(broadcast_targets(&interfaces, port))
        },
        Err(_) => Err(TransportError::Interfaces),
    }
}

/// The bytes that a receive attempt brought: the first `length` bytes of the
/// receive buffer for a datagram, and none if nothing arrived.
pub open spec fn arrived(rxbuffer: Seq<u8>, arrival: Arrival) -> Seq<u8> {
    match arrival {
        Arrival::Datagram { length, sender } => rxbuffer.subrange(0, length as int),
        _ => Seq::empty(),
    }
}

/// Turns the outcome of one receive attempt into a frame and its sender.
///
/// - That nothing was queued is no error: the result is then an empty frame
///   from the null endpoint, as it is for a datagram of length zero.
/// - A datagram of `length > 0` gives a frame over the whole receive buffer
///   whose unread part is its first `length` bytes.  The packet that the
///   frame stands for is the one these bytes stand for; there is none if
///   they are more than the longest frame has.
/// - A length beyond the receive buffer speaks of bytes that are not there,
///   and is taken as a failure of the receive attempt.
pub fn receive(rxbuffer: &[u8], arrival: Arrival) -> (result: Result<
    (Frame, Endpoint),
    TransportError,
>)
    ensures
        match arrival {
            Arrival::Failed => result == Err::<(Frame, Endpoint), TransportError>(
                TransportError::Receive,
            ),
            Arrival::WouldBlock => result matches Ok((frame, sender)) && frame.data().len() == 0
                && frame.rpos() == 0 && frame.wpos() == 0 && sender == (Endpoint {
                ip: 0,
                port: 0,
            }),
            Arrival::Datagram { length, sender: from } => if length > rxbuffer@.len() {
                result == Err::<(Frame, Endpoint), TransportError>(TransportError::Receive)
            } else {
                result matches Ok((frame, sender)) && sender == from && frame.rpos() == 0
                    && frame.wpos() == length && frame.data() == if length == 0 {
                    Seq::<u8>::empty()
                } else {
                    rxbuffer@
                }
            },
        },
        result matches Ok((frame, sender)) ==> frame.unread() == Some(arrived(rxbuffer@, arrival))
            && frame_packet(frame) == decode_spec(arrived(rxbuffer@, arrival)),
        result matches Ok((frame, sender)) ==> (arrival matches Arrival::Datagram { length, .. }
            && length > MAX_SIZE ==> frame_packet(frame) is None),
{
    let (length, sender) = match arrival {
        Arrival::Datagram { length, sender } => (length, sender),
        Arrival::WouldBlock => (0, Endpoint { ip: 0, port: 0 }),
        Arrival::Failed => {
            return Err(TransportError::Receive);
        },
    };
    if length > rxbuffer.len() {
        return Err(TransportError::Receive);
    }
    if !(length > 0) {
        let frame = Frame::new();
        assert(frame.data().subrange(0, 0) == Seq::<u8>::empty());
        assert(rxbuffer@.subrange(0, 0) == Seq::<u8>::empty());
        return Ok((frame, sender));
    }
    let mut frame = Frame::from_bytes(rxbuffer);
    frame.set_wpos(length);
    Ok((frame, sender))
}

} // verus!
