//! The byte buffer that frames are written to and read from.
//!
//! Frames are assembled and taken apart with `bytebuffer::ByteBuffer`.  That
//! type lives outside this crate, so nothing about it is proved here: this
//! module declares it, names the parts of its state that the codec relies on,
//! and states for each method the codec calls what that method does to them.
//! Everything else in the crate is proved from these statements.
//!
//! A `ByteBuffer` also keeps two bit cursors.  The byte-wise methods first
//! move a cursor that stands inside a byte to the next byte boundary; the
//! statements below therefore describe buffers whose cursors are aligned,
//! which is all this crate ever creates.

use bytebuffer::ByteBuffer;
use bytebuffer::Endian;
use vstd::prelude::*;

verus! {

#[verifier::external_type_specification]
#[verifier::external_body]
pub struct ExByteBuffer(ByteBuffer);

#[verifier::external_type_specification]
#[verifier::external_body]
pub struct ExIoError(std::io::Error);

/// The bytes a buffer holds, from its first byte to its last, wherever its
/// cursors stand.
pub uninterp spec fn buffer_data(buffer: ByteBuffer) -> Seq<u8>;

/// Index of the next byte a read takes.
pub uninterp spec fn buffer_rpos(buffer: ByteBuffer) -> nat;

/// Index of the next byte a write fills.
pub uninterp spec fn buffer_wpos(buffer: ByteBuffer) -> nat;

/// Whether multi-byte values are read and written most significant byte
/// first.
pub uninterp spec fn buffer_big_endian(buffer: ByteBuffer) -> bool;

/// Whether both cursors stand on a byte boundary: no single bit has been read
/// or written since the cursors were last aligned.
pub uninterp spec fn buffer_aligned(buffer: ByteBuffer) -> bool;

/// The two bytes that stand for `value` in the given byte order.
pub open spec fn word_bytes(value: u16, big_endian: bool) -> Seq<u8> {
    let high = (value / 256) as u8;
    let low = (value % 256) as u8;
    if big_endian {
        seq![high, low]
    } else {
        seq![low, high]
    }
}

/// The 16-bit value that the bytes `first`, `second` stand for in the given
/// byte order.
pub open spec fn word_value(first: u8, second: u8, big_endian: bool) -> u16 {
    if big_endian {
        (first as int * 256 + second as int) as u16
    } else {
        (second as int * 256 + first as int) as u16
    }
}

/// `data` after `bytes` have been written at index `at`: zero bytes fill any
/// gap between the old end and the written range, and bytes outside the
/// written range keep their values.
pub open spec fn written(data: Seq<u8>, at: nat, bytes: Seq<u8>) -> Seq<u8> {
    Seq::new(
        if at + bytes.len() > data.len() {
            at + bytes.len()
        } else {
            data.len()
        },
        |i: int|
            if at <= i < at + bytes.len() {
                bytes[i - at]
            } else if i < data.len() {
                data[i]
            } else {
                0u8
            },
    )
}

/// Reading a word back from its own bytes gives the word.
pub proof fn lemma_word_round_trip(value: u16, big_endian: bool)
    ensures
        word_bytes(value, big_endian).len() == 2,
        word_value(
            word_bytes(value, big_endian)[0],
            word_bytes(value, big_endian)[1],
            big_endian,
        ) == value,
{
}

/// Writing at the end of the data appends.
pub proof fn lemma_written_at_end(data: Seq<u8>, bytes: Seq<u8>)
    ensures
        written(data, data.len(), bytes) == data + bytes,
{
    assert(written(data, data.len(), bytes) =~= data + bytes);
}

/// `ByteBuffer::new`: an empty buffer, both cursors at zero and aligned,
/// big-endian.
#[verifier::external_body]
pub(crate) fn new() -> (buffer: ByteBuffer)
    ensures
        buffer_data(buffer) == Seq::<u8>::empty(),
        buffer_rpos(buffer) == 0,
        buffer_wpos(buffer) == 0,
        buffer_big_endian(buffer),
        buffer_aligned(buffer),
{
    ByteBuffer::new()
}

/// `ByteBuffer::from_bytes`: a big-endian buffer that holds a copy of
/// `bytes`, with the read cursor at the start and the write cursor at the
/// end.
#[verifier::external_body]
pub(crate) fn from_bytes(bytes: &[u8]) -> (buffer: ByteBuffer)
    ensures
        buffer_data(buffer) == bytes@,
        buffer_rpos(buffer) == 0,
        buffer_wpos(buffer) == bytes@.len(),
        buffer_big_endian(buffer),
        buffer_aligned(buffer),
{
    ByteBuffer::from_bytes(bytes)
}

/// `ByteBuffer::set_endian` with `Endian::BigEndian`: the byte order becomes
/// big-endian and nothing else changes.
#[verifier::external_body]
pub(crate) fn set_big_endian(buffer: &mut ByteBuffer)
    ensures
        buffer_big_endian(*final(buffer)),
        buffer_data(*final(buffer)) == buffer_data(*old(buffer)),
        buffer_rpos(*final(buffer)) == buffer_rpos(*old(buffer)),
        buffer_wpos(*final(buffer)) == buffer_wpos(*old(buffer)),
        buffer_aligned(*final(buffer)) == buffer_aligned(*old(buffer)),
{
    buffer.set_endian(Endian::BigEndian)
}

/// `ByteBuffer::write_u16` on an aligned buffer: the two bytes of `value`, in
/// the buffer's byte order, are written at the write cursor, which moves past
/// them; the buffer grows as far as needed.  The call does not panic.
#[verifier::external_body]
pub(crate) fn write_u16(buffer: &mut ByteBuffer, value: u16)
    ensures
        buffer_aligned(*old(buffer)) ==> {
            &&& buffer_data(*final(buffer)) == written(
                buffer_data(*old(buffer)),
                buffer_wpos(*old(buffer)),
                word_bytes(value, buffer_big_endian(*old(buffer))),
            )
            &&& buffer_wpos(*final(buffer)) == buffer_wpos(*old(buffer)) + 2
            &&& buffer_rpos(*final(buffer)) == buffer_rpos(*old(buffer))
            &&& buffer_big_endian(*final(buffer)) == buffer_big_endian(*old(buffer))
            &&& buffer_aligned(*final(buffer))
        },
    no_unwind
{
    buffer.write_u16(value)
}

/// `ByteBuffer::read_u16` on an aligned buffer: if two bytes stand at the
/// read cursor they are returned as one value in the buffer's byte order and
/// the cursor moves past them; otherwise the call fails and the cursor stays.
/// The data and the write cursor are untouched either way.  The call does
/// not panic.
#[verifier::external_body]
pub(crate) fn read_u16(buffer: &mut ByteBuffer) -> (result: Result<u16, std::io::Error>)
    ensures
        buffer_aligned(*old(buffer)) ==> {
            &&& buffer_data(*final(buffer)) == buffer_data(*old(buffer))
            &&& buffer_wpos(*final(buffer)) == buffer_wpos(*old(buffer))
            &&& buffer_big_endian(*final(buffer)) == buffer_big_endian(*old(buffer))
            &&& buffer_aligned(*final(buffer))
            &&& match result {
                Ok(value) => {
                    &&& buffer_rpos(*old(buffer)) + 2 <= buffer_data(*old(buffer)).len()
                    &&& buffer_rpos(*final(buffer)) == buffer_rpos(*old(buffer)) + 2
                    &&& value == word_value(
                        buffer_data(*old(buffer))[buffer_rpos(*old(buffer)) as int],
                        buffer_data(*old(buffer))[buffer_rpos(*old(buffer)) as int + 1],
                        buffer_big_endian(*old(buffer)),
                    )
                },
                Err(_) => {
                    &&& buffer_rpos(*old(buffer)) + 2 > buffer_data(*old(buffer)).len()
                    &&& buffer_rpos(*final(buffer)) == buffer_rpos(*old(buffer))
                },
            }
        },
    no_unwind
{
    buffer.read_u16()
}

/// `ByteBuffer::get_rpos`: the read cursor.
#[verifier::external_body]
pub(crate) fn get_rpos(buffer: &ByteBuffer) -> (position: usize)
    ensures
        position == buffer_rpos(*buffer),
{
    buffer.get_rpos()
}

/// `ByteBuffer::get_wpos`: the write cursor.
#[verifier::external_body]
pub(crate) fn get_wpos(buffer: &ByteBuffer) -> (position: usize)
    ensures
        position == buffer_wpos(*buffer),
{
    buffer.get_wpos()
}

/// `ByteBuffer::set_wpos`: the write cursor moves to `position`, or to the
/// end of the data if `position` lies beyond it; nothing else changes.  The
/// call does not panic.
#[verifier::external_body]
pub(crate) fn set_wpos(buffer: &mut ByteBuffer, position: usize)
    ensures
        buffer_wpos(*final(buffer)) == if position <= buffer_data(*old(buffer)).len() {
            position as nat
        } else {
            buffer_data(*old(buffer)).len()
        },
        buffer_data(*final(buffer)) == buffer_data(*old(buffer)),
        buffer_rpos(*final(buffer)) == buffer_rpos(*old(buffer)),
        buffer_big_endian(*final(buffer)) == buffer_big_endian(*old(buffer)),
        buffer_aligned(*final(buffer)) == buffer_aligned(*old(buffer)),
    no_unwind
{
    buffer.set_wpos(position)
}

/// `ByteBuffer::into_bytes`: a copy of all the bytes the buffer holds.
#[verifier::external_body]
pub(crate) fn into_bytes(buffer: &ByteBuffer) -> (bytes: Vec<u8>)
    ensures
        bytes@ == buffer_data(*buffer),
{
    buffer.into_bytes()
}

/// `ByteBuffer::is_empty`: whether the buffer holds no byte at all.
#[verifier::external_body]
pub(crate) fn is_empty(buffer: &ByteBuffer) -> (empty: bool)
    ensures
        empty == (buffer_data(*buffer).len() == 0),
{
    buffer.is_empty()
}

} // verus!
