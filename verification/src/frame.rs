//! Frames in the making: a byte buffer with a read cursor and a write cursor.

use crate::buffer;
use crate::buffer::{
    buffer_aligned, buffer_big_endian, buffer_data, buffer_rpos, buffer_wpos, word_bytes,
    word_value, written,
};
use bytebuffer::ByteBuffer;
use vstd::prelude::*;

verus! {

/// A big-endian byte buffer whose cursors stand on byte boundaries.
///
/// Writes go to the write cursor and reads come from the read cursor; the two
/// move independently.  The bytes of interest to the codec are those between
/// the read cursor and the write cursor ([`Frame::unread`]).
pub struct Frame {
    buffer: ByteBuffer,
}

/// A read asked for more bytes than the buffer holds past its read cursor.
#[derive(Clone, Copy, Debug, PartialEq, Eq, Structural)]
pub struct EndOfFrame;

impl Frame {
    #[verifier::type_invariant]
    closed spec fn aligned_big_endian(self) -> bool {
        buffer_aligned(self.buffer) && buffer_big_endian(self.buffer)
    }

    /// All bytes the buffer holds, wherever its cursors stand.
    pub closed spec fn data(self) -> Seq<u8> {
        buffer_data(self.buffer)
    }

    /// Index of the next byte a read takes.
    pub closed spec fn rpos(self) -> nat {
        buffer_rpos(self.buffer)
    }

    /// Index of the next byte a write fills.
    pub closed spec fn wpos(self) -> nat {
        buffer_wpos(self.buffer)
    }

    /// The bytes between the read cursor and the write cursor, if the cursors
    /// stand in that order inside the data.
    pub open spec fn unread(self) -> Option<Seq<u8>> {
        if self.rpos() <= self.wpos() <= self.data().len() {
            Some(self.data().subrange(self.rpos() as int, self.wpos() as int))
        } else {
            None
        }
    }

    /// An empty buffer with both cursors at zero.
    pub fn new() -> (frame: Frame)
        ensures
            frame.data() == Seq::<u8>::empty(),
            frame.rpos() == 0,
            frame.wpos() == 0,
    {
        let mut buffer = buffer::new();
        buffer::set_big_endian(&mut buffer);
        Frame { buffer }
    }

    /// A buffer that holds a copy of `bytes`, all of them unread.
    pub fn from_bytes(bytes: &[u8]) -> (frame: Frame)
        ensures
            frame.data() == bytes@,
            frame.rpos() == 0,
            frame.wpos() == bytes@.len(),
            frame.unread() == Some(bytes@),
    {
        let mut buffer = buffer::from_bytes(bytes);
        buffer::set_big_endian(&mut buffer);
        assert(bytes@.subrange(0, bytes@.len() as int) == bytes@);
        Frame { buffer }
    }

    /// Whether the buffer holds no byte at all.
    pub fn is_empty(&self) -> (empty: bool)
        ensures
            empty == (self.data().len() == 0),
    {
        buffer::is_empty(&self.buffer)
    }

    /// A copy of all bytes the buffer holds.
    pub fn to_bytes(&self) -> (bytes: Vec<u8>)
        ensures
            bytes@ == self.data(),
    {
        buffer::into_bytes(&self.buffer)
    }

    /// The read cursor.
    pub fn get_rpos(&self) -> (position: usize)
        ensures
            position == self.rpos(),
    {
        buffer::get_rpos(&self.buffer)
    }

    /// The write cursor.
    pub fn get_wpos(&self) -> (position: usize)
        ensures
            position == self.wpos(),
    {
        buffer::get_wpos(&self.buffer)
    }

    /// Moves the write cursor to `position`, or to the end of the data if
    /// `position` lies beyond it.
    pub fn set_wpos(&mut self, position: usize)
        ensures
            final(self).wpos() == if position <= old(self).data().len() {
                position as nat
            } else {
                old(self).data().len()
            },
            final(self).data() == old(self).data(),
            final(self).rpos() == old(self).rpos(),
    {
        proof {
            use_type_invariant(&*self);
        }
        buffer::set_wpos(&mut self.buffer, position);
    }

    /// Writes `value` at the write cursor, most significant byte first, and
    /// moves the cursor past it.  The buffer grows as far as needed.
    pub fn write_u16(&mut self, value: u16)
        ensures
            final(self).data() == written(
                old(self).data(),
                old(self).wpos(),
                word_bytes(value, true),
            ),
            final(self).wpos() == old(self).wpos() + 2,
            final(self).rpos() == old(self).rpos(),
    {
        proof {
            use_type_invariant(&*self);
        }
        buffer::write_u16(&mut self.buffer, value);
    }

    /// Reads the two bytes at the read cursor as one value, most significant
    /// byte first, and moves the cursor past them.  If fewer than two bytes
    /// are left of the data, nothing is read and the cursor stays.
    pub fn read_u16(&mut self) -> (result: Result<u16, EndOfFrame>)
        ensures
            final(self).data() == old(self).data(),
            final(self).wpos() == old(self).wpos(),
            match result {
                Ok(value) => {
                    &&& old(self).rpos() + 2 <= old(self).data().len()
                    &&& final(self).rpos() == old(self).rpos() + 2
                    &&& value == word_value(
                        old(self).data()[old(self).rpos() as int],
                        old(self).data()[old(self).rpos() as int + 1],
                        true,
                    )
                },
                Err(_) => {
                    &&& old(self).rpos() + 2 > old(self).data().len()
                    &&& final(self).rpos() == old(self).rpos()
                },
            },
    {
        proof {
            use_type_invariant(&*self);
        }
        match buffer::read_u16(&mut self.buffer) {
            Ok(value) => Ok(value),
            Err(_) => Err(EndOfFrame),
        }
    }
}

} // verus!
