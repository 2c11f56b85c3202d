//! The wire frame: three kinds of packet and their fixed binary layout.
//!
//! A frame is a sequence of big-endian 16-bit words: the opcode, the sequence
//! number and, for `Data` only, a row and a column.  `Ping` and `Ack` frames
//! are 4 bytes long, `Data` frames 8 bytes.

use crate::buffer::{lemma_written_at_end, word_bytes, word_value};
use crate::frame::Frame;
use crate::sequence::{issued, SequenceGenerator};
use vstd::prelude::*;

verus! {

/// What a packet is for.
#[derive(Clone, Copy, Debug, PartialEq, Eq, Structural)]
pub enum Opcode {
    /// Asks whoever listens to answer.
    Ping,
    /// Answers the packet whose sequence number it repeats.
    Ack,
    /// Carries one move.
    Data,
}

impl Opcode {
    /// The number that stands for this opcode on the wire.
    pub open spec fn spec_code(self) -> u16 {
        match self {
            Opcode::Ping => 1,
            Opcode::Ack => 2,
            Opcode::Data => 3,
        }
    }

    /// The number that stands for this opcode on the wire.
    #[verifier::when_used_as_spec(spec_code)]
    pub fn code(self) -> (code: u16)
        ensures
            code == self.spec_code(),
    {
        match self {
            Opcode::Ping => 1,
            Opcode::Ack => 2,
            Opcode::Data => 3,
        }
    }

    /// The opcode that `code` stands for, if any.
    pub open spec fn spec_from_code(code: u16) -> Option<Opcode> {
        if code == 1 {
            Some(Opcode::Ping)
        } else if code == 2 {
            Some(Opcode::Ack)
        } else if code == 3 {
            Some(Opcode::Data)
        } else {
            None
        }
    }

    /// The opcode that `code` stands for, if any.
    #[verifier::when_used_as_spec(spec_from_code)]
    pub fn from_code(code: u16) -> (opcode: Option<Opcode>)
        ensures
            opcode == Opcode::spec_from_code(code),
    {
        if code == 1 {
            Some(Opcode::Ping)
        } else if code == 2 {
            Some(Opcode::Ack)
        } else if code == 3 {
            Some(Opcode::Data)
        } else {
            None
        }
    }
}

/// One packet.
///
/// A packet is well formed ([`Packet::well_formed`]) when it carries a
/// coordinate pair exactly if it is a `Data` packet.
#[derive(Clone, Copy, Debug, PartialEq, Eq)]
pub struct Packet {
    /// What the packet is for.
    pub opcode: Opcode,
    /// Sequence number, by which an answer is matched to its request.
    pub number: u16,
    /// The move `(row, column)` of a `Data` packet.
    pub data: Option<(u16, u16)>,
}

/// Reason why bytes were not accepted as a frame.  Foreign senders share the
/// broadcast port, so this is an everyday outcome.
#[derive(Clone, Copy, Debug, PartialEq, Eq, Structural)]
pub struct MalformedPacket;

/// Length in bytes of a frame without coordinates.
pub const MIN_SIZE: usize = 4;

/// Length in bytes of a frame with coordinates.
pub const MAX_SIZE: usize = 8;

/// The frame of `packet`: opcode and sequence number, followed by row and
/// column if it is a `Data` packet that carries them.  Coordinates on any
/// other packet are left out.
pub open spec fn wire_bytes(packet: Packet) -> Seq<u8> {
    let header = word_bytes(packet.opcode.spec_code(), true) + word_bytes(packet.number, true);
    match packet.data {
        Some((row, column)) if packet.opcode == Opcode::Data => header + word_bytes(row, true)
            + word_bytes(column, true),
        _ => header,
    }
}

/// The packet that `bytes` stand for, if they are a frame: 4 bytes that start
/// with the code of `Ping` or `Ack`, or 8 bytes that start with the code of
/// `Data`.
pub open spec fn decode_spec(bytes: Seq<u8>) -> Option<Packet> {
    if bytes.len() == 4 || bytes.len() == 8 {
        let number = word_value(bytes[2], bytes[3], true);
        match Opcode::spec_from_code(word_value(bytes[0], bytes[1], true)) {
            Some(Opcode::Data) => if bytes.len() == 8 {
                Some(
                    Packet {
                        opcode: Opcode::Data,
                        number,
                        data: Some(
                            (
                                word_value(bytes[4], bytes[5], true),
                                word_value(bytes[6], bytes[7], true),
                            ),
                        ),
                    },
                )
            } else {
                None
            },
            Some(opcode) => if bytes.len() == 4 {
                Some(Packet { opcode, number, data: None })
            } else {
                None
            },
            None => None,
        }
    } else {
        None
    }
}

/// How many bytes of a candidate frame are read before it is accepted or
/// rejected: none if its length is out of range, the opcode alone if the
/// opcode is unknown, the whole frame if it is a `Data` frame of full length,
/// and opcode and sequence number otherwise.
pub open spec fn bytes_examined(bytes: Seq<u8>) -> nat {
    if bytes.len() < 4 || bytes.len() > 8 {
        0
    } else {
        match Opcode::spec_from_code(word_value(bytes[0], bytes[1], true)) {
            None => 2,
            Some(Opcode::Data) => if bytes.len() == 8 {
                8
            } else {
                4
            },
            Some(_) => 4,
        }
    }
}

/// The packet that the unread bytes of `frame` stand for, if they are a
/// frame.
pub open spec fn frame_packet(frame: Frame) -> Option<Packet> {
    match frame.unread() {
        Some(bytes) => decode_spec(bytes),
        None => None,
    }
}

impl Packet {
    /// Whether the packet carries coordinates exactly if it is a `Data`
    /// packet.
    pub open spec fn well_formed(self) -> bool {
        (self.opcode == Opcode::Data) == (self.data is Some)
    }

    /// A packet of the given kind in its first state.
    ///
    /// A `Ping` or a `Data` packet is a request and takes a fresh number from
    /// `counter`.  An `Ack` is an answer: it takes none, and is numbered zero
    /// until [`Packet::set_number`] gives it the number of the packet it
    /// answers.  A `Data` packet carries the move `(0, 0)` until
    /// [`Packet::set_data`] gives it another.
    pub fn new(opcode: Opcode, counter: &mut SequenceGenerator) -> (packet: Packet)
        ensures
            packet.opcode == opcode,
            packet.number == if opcode == Opcode::Ack {
                0
            } else {
                old(counter)@
            },
            packet.data == if opcode == Opcode::Data {
                Some((0u16, 0u16))
            } else {
                None
            },
            packet.well_formed(),
            final(counter)@ == if opcode == Opcode::Ack {
                old(counter)@
            } else {
                issued(old(counter)@, 1)
            },
    {
        match opcode {
            Opcode::Ping => Packet { opcode, number: counter.next(), data: None },
            Opcode::Ack => Packet { opcode, number: 0, data: None },
            Opcode::Data => Packet { opcode, number: counter.next(), data: Some((0, 0)) },
        }
    }

    /// A `Data` packet for the move `(x, y)`, numbered from `counter`.  Each
    /// coordinate is stored in 16 bits; higher bits are dropped.
    pub fn new_data(x: usize, y: usize, counter: &mut SequenceGenerator) -> (packet: Packet)
        ensures
            packet.opcode == Opcode::Data,
            packet.number == old(counter)@,
            packet.data == Some(((x % 65536) as u16, (y % 65536) as u16)),
            packet.well_formed(),
            final(counter)@ == issued(old(counter)@, 1),
    {
        Packet {
            opcode: Opcode::Data,
            number: counter.next(),
            data: Some(((x % 65536) as u16, (y % 65536) as u16)),
        }
    }

    /// The `Ack` that answers a packet numbered `number`.  An answer repeats
    /// the number of its request, so no fresh identifier is used up.
    pub fn ack(number: u16) -> (packet: Packet)
        ensures
            packet.opcode == Opcode::Ack,
            packet.number == number,
            packet.data is None,
            packet.well_formed(),
    {
        Packet { opcode: Opcode::Ack, number, data: None }
    }

    /// Whether this is a `Ping`.
    pub fn is_ping(&self) -> (yes: bool)
        ensures
            yes == (self.opcode == Opcode::Ping),
    {
        self.opcode == Opcode::Ping
    }

    /// Whether this is an `Ack`.
    pub fn is_ack(&self) -> (yes: bool)
        ensures
            yes == (self.opcode == Opcode::Ack),
    {
        self.opcode == Opcode::Ack
    }

    /// Whether this is a `Data` packet.
    pub fn is_data(&self) -> (yes: bool)
        ensures
            yes == (self.opcode == Opcode::Data),
    {
        self.opcode == Opcode::Data
    }

    /// Replaces the sequence number.
    pub fn set_number(&mut self, value: u16)
        ensures
            final(self).number == value,
            final(self).opcode == old(self).opcode,
            final(self).data == old(self).data,
    {
        self.number = value
    }

    /// Replaces the coordinates of a `Data` packet by `(x, y)`, each stored
    /// in 16 bits.  Any other packet is left as it is.
    pub fn set_data(&mut self, x: usize, y: usize)
        ensures
            final(self).opcode == old(self).opcode,
            final(self).number == old(self).number,
            old(self).opcode == Opcode::Data ==> final(self).data == Some(
                ((x % 65536) as u16, (y % 65536) as u16),
            ),
            old(self).opcode != Opcode::Data ==> final(self).data == old(self).data,
    {
        if self.is_data() {
            self.data = Some(((x % 65536) as u16, (y % 65536) as u16));
        }
    }

    /// The opcode.
    pub fn what(&self) -> (opcode: Opcode)
        ensures
            opcode == self.opcode,
    {
        self.opcode
    }

    /// The sequence number.
    pub fn number(&self) -> (number: u16)
        ensures
            number == self.number,
    {
        self.number
    }

    /// The coordinates, if the packet carries any.
    pub fn data(&self) -> (data: Option<(u16, u16)>)
        ensures
            data == self.data,
    {
        self.data
    }

    /// Length in bytes of this packet's frame.
    pub fn size(&self) -> (size: usize)
        ensures
            size == if self.opcode == Opcode::Data {
                MAX_SIZE
            } else {
                MIN_SIZE
            },
            self.well_formed() ==> size == wire_bytes(*self).len(),
    {
        if self.is_data() {
            MAX_SIZE
        } else {
            MIN_SIZE
        }
    }

    /// Writes the frame of this packet into a fresh buffer.  Reading the
    /// frame back gives a well-formed packet again.
    ///
    /// A `Data` packet that lacks its coordinates is written as opcode and
    /// sequence number alone, which no decoder accepts.
    pub fn encode(&self) -> (packet: Frame)
        ensures
            packet.data() == wire_bytes(*self),
            packet.rpos() == 0,
            packet.wpos() == wire_bytes(*self).len(),
            packet.unread() == Some(wire_bytes(*self)),
            self.well_formed() ==> frame_packet(packet) == Some(*self),
    {
        proof {
            if self.well_formed() {
                lemma_decode_encode(*self);
            }
        }
        let mut packet = Frame::new();
        proof {
            lemma_written_at_end(packet.data(), word_bytes(self.opcode.spec_code(), true));
        }
        packet.write_u16(self.opcode.code());
        proof {
            lemma_written_at_end(packet.data(), word_bytes(self.number, true));
        }
        packet.write_u16(self.number);
        if self.is_data() {
            match self.data {
                Some((x, y)) => {
                    proof {
                        lemma_written_at_end(packet.data(), word_bytes(x, true));
                    }
                    packet.write_u16(x);
                    proof {
                        lemma_written_at_end(packet.data(), word_bytes(y, true));
                    }
                    packet.write_u16(y);
                },
                None => {},
            }
        }
        assert(packet.data().subrange(0, packet.data().len() as int) == packet.data());
        packet
    }

    /// Reads one frame from `packet`: the bytes between its read cursor and
    /// its write cursor.
    ///
    /// If those bytes are a frame, `self` becomes the packet they stand for,
    /// the read cursor ends at the write cursor and the result is `true`.
    /// Otherwise `self` is left as it was and the result is `false`; the read
    /// cursor has then passed the fields examined before the fault showed.
    pub fn parse(&mut self, packet: &mut Frame) -> (ok: bool)
        ensures
            ok == (frame_packet(*old(packet)) is Some),
            ok ==> Some(*final(self)) == frame_packet(*old(packet)),
            !ok ==> *final(self) == *old(self),
            final(packet).data() == old(packet).data(),
            final(packet).wpos() == old(packet).wpos(),
            match old(packet).unread() {
                Some(bytes) => final(packet).rpos() == old(packet).rpos() + bytes_examined(bytes),
                None => old(packet).rpos() <= final(packet).rpos() <= old(packet).rpos() + 8,
            },
    {
        let wpos = packet.get_wpos();
        let rpos = packet.get_rpos();
        if wpos < rpos {
            return false;
        }
        let size = wpos - rpos;
        if size < MIN_SIZE || size > MAX_SIZE {
            return false;
        }
        let code = match packet.read_u16() {
            Ok(value) => value,
            Err(_) => {
                return false;
            },
        };
        let opcode = match Opcode::from_code(code) {
            Some(opcode) => opcode,
            None => {
                return false;
            },
        };
        let number = match packet.read_u16() {
            Ok(value) => value,
            Err(_) => {
                return false;
            },
        };
        let mut data: Option<(u16, u16)> = None;
        if opcode == Opcode::Data {
            if size < MAX_SIZE {
                return false;
            }
            let x = match packet.read_u16() {
                Ok(value) => value,
                Err(_) => {
                    return false;
                },
            };
            let y = match packet.read_u16() {
                Ok(value) => value,
                Err(_) => {
                    return false;
                },
            };
            data = Some((x, y));
        }
        if packet.get_rpos() != packet.get_wpos() {
            return false;
        }
        self.opcode = opcode;
        self.number = number;
        self.data = data;
        true
    }

    /// The frame of this packet as bytes, ready to be sent.
    pub fn to_bytes(&self) -> (bytes: Vec<u8>)
        ensures
            bytes@ == wire_bytes(*self),
            self.well_formed() ==> decode_spec(bytes@) == Some(*self),
    {
        proof {
            if self.well_formed() {
                lemma_decode_encode(*self);
            }
        }
        self.encode().to_bytes()
    }

    /// Decodes one datagram.  The bytes are accepted exactly if they are a
    /// frame, and the result is then the packet they stand for.
    pub fn decode(bytes: &[u8]) -> (result: Result<Packet, MalformedPacket>)
        ensures
            match decode_spec(bytes@) {
                Some(packet) => result == Ok::<Packet, MalformedPacket>(packet),
                None => result is Err,
            },
    {
        let mut frame = Frame::from_bytes(bytes);
        let mut packet = Packet { opcode: Opcode::Ping, number: 0, data: None };
        if packet.parse(&mut frame) {
            Ok(packet)
        } else {
            Err(MalformedPacket)
        }
    }
}

/// Decoding the frame of a well-formed packet gives the packet back.
pub proof fn lemma_decode_encode(packet: Packet)
    requires
        packet.well_formed(),
    ensures
        decode_spec(wire_bytes(packet)) == Some(packet),
{
    crate::buffer::lemma_word_round_trip(packet.opcode.spec_code(), true);
    crate::buffer::lemma_word_round_trip(packet.number, true);
    match packet.data {
        Some((row, column)) => {
            crate::buffer::lemma_word_round_trip(row, true);
            crate::buffer::lemma_word_round_trip(column, true);
        },
        None => {},
    }
}

/// Whatever decodes is well formed, and encoding it gives the same bytes
/// back: no two frames stand for the same packet.
pub proof fn lemma_encode_decode(bytes: Seq<u8>)
    requires
        decode_spec(bytes) is Some,
    ensures
        decode_spec(bytes).unwrap().well_formed(),
        wire_bytes(decode_spec(bytes).unwrap()) == bytes,
{
    let packet = decode_spec(bytes).unwrap();
    assert(wire_bytes(packet) =~= bytes);
}

/// What is never a frame: fewer than 4 bytes, more than 8 bytes, bytes that
/// start with an unknown opcode, a `Data` opcode with only 4 bytes, and any
/// length other than the one the opcode calls for.
pub proof fn lemma_decode_rejects(bytes: Seq<u8>)
    ensures
        bytes.len() < 4 ==> decode_spec(bytes) is None,
        bytes.len() > 8 ==> decode_spec(bytes) is None,
        bytes.len() >= 2 && Opcode::spec_from_code(word_value(bytes[0], bytes[1], true)) is None
            ==> decode_spec(bytes) is None,
        bytes.len() == 4 && word_value(bytes[0], bytes[1], true) == Opcode::Data.spec_code()
            ==> decode_spec(bytes) is None,
        decode_spec(bytes) matches Some(packet) ==> bytes.len() == if packet.opcode
            == Opcode::Data {
            8nat
        } else {
            4nat
        },
{
}

} // verus!
