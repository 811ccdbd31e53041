//! Typed little-endian (de)serialization over a cursor.
//!
//! `BasicCodec` maps typed values to and from the byte stream a `Cursor`
//! exposes. Every multi-byte scalar is little-endian. Strings and binary
//! blobs are a `u32` length followed by the raw bytes; lists announce a `u32`
//! element count; unions an `i32` discriminator; nullable values a one-byte
//! flag; callbacks a `u8` index into a caller-supplied id table. The message
//! header packs protocol version, service, request and message type into one
//! `u32`, followed by a `u32` sequence number.
//!
//! Writes fail loudly when the buffer runs out and commit nothing for the
//! scalar that did not fit; reads follow the cursor's policy and zero-extend
//! when the buffer ends early instead of failing.

use vstd::prelude::*;

use crate::cursor::{Cursor, CursorError};
use crate::request::MessageType;
use vstd::string::StringSliceAdditionalSpecFns;
use vstd::utf8::{decode_utf8, encode_utf8, valid_utf8};
use crate::wire::{
    avail_of, bool_byte, i16_le, i16_of_le, i32_le, i32_of_le, i64_le, i64_of_le, i8_le, i8_of_le,
    overwrite, ptr_le, read_padded, u16_le, u16_of_le, u32_le, u32_of_le, u64_le, u64_of_le, u8_le,
    u8_of_le,
};

verus! {

#[derive(Debug, Copy, Clone, Eq, PartialEq)]
pub enum CodecError {
    /// A callback id was not in the table, or a decoded index was out of it.
    InvalidCallback,
    /// A decoded message type byte named no known message type.
    InvalidMessageType,
    /// The underlying cursor failed.
    Cursor(CursorError),
    /// Decoded string bytes were not well-formed text.
    Utf8Error,
}

/// The fixed leading fields of a message: its role, the service and request
/// ids, and the caller's correlation sequence number. On the wire only the
/// low 8 bits of `service` and `request` are representable; higher bits are
/// truncated, not rejected, so callers must keep both ids within 0..=255.
#[derive(Debug, Copy, Clone, PartialEq, Eq)]
pub struct MessageHeader {
    pub message_type: MessageType,
    pub service: u32,
    pub request: u32,
    pub sequence: u32,
}

/// The protocol version written into every header.
pub const PROTOCOL_VERSION: u32 = 1;

/// The first header word: version, service, request and message type packed
/// into one 32-bit value.
pub open spec fn header_word(h: MessageHeader) -> u32 {
    (PROTOCOL_VERSION << 24) | ((h.service & 0xff) << 16) | ((h.request & 0xff) << 8)
        | crate::request::message_type_code(h.message_type)
}

/// The eight header bytes: the packed word, then the sequence number.
pub open spec fn header_bytes(h: MessageHeader) -> Seq<u8> {
    u32_le(header_word(h)) + u32_le(h.sequence)
}

/// The header recovered from a packed word and a sequence number; `None`
/// when the low byte names no message type.
pub open spec fn decode_header(w: u32, seqno: u32) -> Option<MessageHeader> {
    match crate::request::message_type_of(w & 0xff) {
        Some(t) => Some(
            MessageHeader {
                message_type: t,
                service: (w >> 16) & 0xff,
                request: (w >> 8) & 0xff,
                sequence: seqno,
            },
        ),
        None => None,
    }
}

/// The index of the first occurrence of `id` in `ids`, or `ids.len()` when
/// `id` does not occur.
pub open spec fn first_match(ids: Seq<usize>, id: usize) -> int
    decreases ids.len(),
{
    if ids.len() == 0 {
        0
    } else if ids[0] == id {
        0
    } else {
        1 + first_match(ids.skip(1), id)
    }
}

/// What `first_match` finds: an in-range index holding `id`, with no earlier
/// occurrence, or the length when `id` is absent.
pub proof fn lemma_first_match(ids: Seq<usize>, id: usize)
    ensures
        0 <= first_match(ids, id) <= ids.len(),
        first_match(ids, id) < ids.len() ==> ids[first_match(ids, id)] == id,
        forall|j: int| 0 <= j < first_match(ids, id) ==> ids[j] != id,
    decreases ids.len(),
{
    if ids.len() > 0 && ids[0] != id {
        lemma_first_match(ids.skip(1), id);
        assert forall|j: int| 0 <= j < first_match(ids, id) implies ids[j] != id by {
            if j > 0 {
                assert(ids.skip(1)[j - 1] == ids[j]);
            }
        }
        if first_match(ids, id) < ids.len() {
            assert(ids.skip(1)[first_match(ids, id) - 1] == ids[first_match(ids, id)]);
        }
    }
}

/// A typed serializer/deserializer over the cursor it owns.
pub struct BasicCodec<C: Cursor> {
    pub cursor: C,
}

/// Writing `x` and then `y` is one write of `x + y`.
pub proof fn lemma_wrote_compose<C: Cursor>(
    a: BasicCodec<C>,
    b: BasicCodec<C>,
    c: BasicCodec<C>,
    x: Seq<u8>,
    y: Seq<u8>,
)
    requires
        a.inv(),
        codec_fits(a, x.len() + y.len() as int),
        codec_wrote(a, b, x),
        codec_wrote(b, c, y),
    ensures
        codec_wrote(a, c, x + y),
{
    assert(c.data() =~= overwrite(a.data(), a.pos() as int, x + y));
}

/// `post` is `pre` with exactly `bytes` written at the position, which has
/// advanced past them.
pub open spec fn codec_wrote<C: Cursor>(
    pre: BasicCodec<C>,
    post: BasicCodec<C>,
    bytes: Seq<u8>,
) -> bool {
    &&& post.data() == overwrite(pre.data(), pre.pos() as int, bytes)
    &&& post.pos() == pre.pos() + bytes.len()
}

/// Neither the buffer nor the position moved.
pub open spec fn codec_unchanged<C: Cursor>(pre: BasicCodec<C>, post: BasicCodec<C>) -> bool {
    &&& post.data() == pre.data()
    &&& post.pos() == pre.pos()
}

/// `n` more bytes still fit at the position.
pub open spec fn codec_fits<C: Cursor>(c: BasicCodec<C>, n: int) -> bool {
    c.pos() + n <= c.data().len()
}

impl<C: Cursor> BasicCodec<C> {
    /// The bytes of the underlying buffer.
    pub open spec fn data(&self) -> Seq<u8> {
        self.cursor.data()
    }

    /// The current read/write position.
    pub open spec fn pos(&self) -> nat {
        self.cursor.pos()
    }

    /// Well-formedness: the position never passes the end of the buffer.
    pub open spec fn inv(&self) -> bool {
        self.pos() <= self.data().len()
    }

    /// A codec over `cursor`, which it owns until detached.
    pub fn new(cursor: C) -> (r: Self)
        ensures
            r == (BasicCodec { cursor }),
    {
        Self { cursor }
    }

    /// Hands the cursor back, consuming the codec.
    pub fn detach(self) -> (r: C)
        ensures
            r == self.cursor,
    {
        self.cursor
    }

    /// Writes raw bytes through the cursor, wrapping its error.
    fn write_bytes(&mut self, bytes: &[u8]) -> (r: Result<(), CodecError>)
        requires
            old(self).inv(),
        ensures
            final(self).inv(),
            if codec_fits(*old(self), bytes@.len() as int) {
                &&& r == Ok::<(), CodecError>(())
                &&& codec_wrote(*old(self), *final(self), bytes@)
            } else {
                &&& r == Err::<(), CodecError>(CodecError::Cursor(CursorError::InsufficientBuffer))
                &&& codec_unchanged(*old(self), *final(self))
            },
    {
        match self.cursor.write(bytes) {
            Ok(()) => Ok(()),
            Err(e) => Err(CodecError::Cursor(e)),
        }
    }

    /// Reads `n` bytes at the position, zero-extended past the end of the
    /// buffer, advancing over what was actually there.
    fn read_padded_vec(&mut self, n: usize) -> (r: Vec<u8>)
        requires
            old(self).inv(),
        ensures
            final(self).inv(),
            final(self).data() == old(self).data(),
            final(self).pos() == old(self).pos() + avail_of(
                old(self).data(),
                old(self).pos() as int,
                n as int,
            ),
            r@ == read_padded(old(self).data(), old(self).pos() as int, n as int),
            r@.len() == n,
    {
        let mut buf: Vec<u8> = crate::cursor::zero_vec(n);
        match self.cursor.read(&mut buf) {
            Ok(_) => {},
            Err(_) => {
                proof {
                    assert(false);
                }
            },
        }
        proof {
            assert(buf@ =~= read_padded(old(self).data(), old(self).pos() as int, n as int));
        }
        buf
    }

    pub fn write_u8(&mut self, value: u8) -> (r: Result<(), CodecError>)
        requires
            old(self).inv(),
        ensures
            final(self).inv(),
            if codec_fits(*old(self), 1) {
                &&& r == Ok::<(), CodecError>(())
                &&& codec_wrote(*old(self), *final(self), u8_le(value))
            } else {
                &&& r == Err::<(), CodecError>(CodecError::Cursor(CursorError::InsufficientBuffer))
                &&& codec_unchanged(*old(self), *final(self))
            },
    {
        let mut bytes: Vec<u8> = Vec::new();
        bytes.push(value);
        proof {
            assert(bytes@ =~= u8_le(value));
        }
        self.write_bytes(bytes.as_slice())
    }

    pub fn write_i8(&mut self, value: i8) -> (r: Result<(), CodecError>)
        requires
            old(self).inv(),
        ensures
            final(self).inv(),
            if codec_fits(*old(self), 1) {
                &&& r == Ok::<(), CodecError>(())
                &&& codec_wrote(*old(self), *final(self), i8_le(value))
            } else {
                &&& r == Err::<(), CodecError>(CodecError::Cursor(CursorError::InsufficientBuffer))
                &&& codec_unchanged(*old(self), *final(self))
            },
    {
        self.write_u8(#[verifier::truncate] (value as u8))
    }

    pub fn write_u16(&mut self, value: u16) -> (r: Result<(), CodecError>)
        requires
            old(self).inv(),
        ensures
            final(self).inv(),
            if codec_fits(*old(self), 2) {
                &&& r == Ok::<(), CodecError>(())
                &&& codec_wrote(*old(self), *final(self), u16_le(value))
            } else {
                &&& r == Err::<(), CodecError>(CodecError::Cursor(CursorError::InsufficientBuffer))
                &&& codec_unchanged(*old(self), *final(self))
            },
    {
        let mut bytes: Vec<u8> = Vec::new();
        bytes.push(#[verifier::truncate] ((value & 0xff) as u8));
        bytes.push(#[verifier::truncate] (((value >> 8) & 0xff) as u8));
        proof {
            assert(bytes@ =~= u16_le(value));
        }
        self.write_bytes(bytes.as_slice())
    }

    pub fn write_i16(&mut self, value: i16) -> (r: Result<(), CodecError>)
        requires
            old(self).inv(),
        ensures
            final(self).inv(),
            if codec_fits(*old(self), 2) {
                &&& r == Ok::<(), CodecError>(())
                &&& codec_wrote(*old(self), *final(self), i16_le(value))
            } else {
                &&& r == Err::<(), CodecError>(CodecError::Cursor(CursorError::InsufficientBuffer))
                &&& codec_unchanged(*old(self), *final(self))
            },
    {
        self.write_u16(#[verifier::truncate] (value as u16))
    }

    pub fn write_u32(&mut self, value: u32) -> (r: Result<(), CodecError>)
        requires
            old(self).inv(),
        ensures
            final(self).inv(),
            if codec_fits(*old(self), 4) {
                &&& r == Ok::<(), CodecError>(())
                &&& codec_wrote(*old(self), *final(self), u32_le(value))
            } else {
                &&& r == Err::<(), CodecError>(CodecError::Cursor(CursorError::InsufficientBuffer))
                &&& codec_unchanged(*old(self), *final(self))
            },
    {
        let mut bytes: Vec<u8> = Vec::new();
        bytes.push(#[verifier::truncate] ((value & 0xff) as u8));
        bytes.push(#[verifier::truncate] (((value >> 8) & 0xff) as u8));
        bytes.push(#[verifier::truncate] (((value >> 16) & 0xff) as u8));
        bytes.push(#[verifier::truncate] (((value >> 24) & 0xff) as u8));
        proof {
            assert(bytes@ =~= u32_le(value));
        }
        self.write_bytes(bytes.as_slice())
    }

    pub fn write_i32(&mut self, value: i32) -> (r: Result<(), CodecError>)
        requires
            old(self).inv(),
        ensures
            final(self).inv(),
            if codec_fits(*old(self), 4) {
                &&& r == Ok::<(), CodecError>(())
                &&& codec_wrote(*old(self), *final(self), i32_le(value))
            } else {
                &&& r == Err::<(), CodecError>(CodecError::Cursor(CursorError::InsufficientBuffer))
                &&& codec_unchanged(*old(self), *final(self))
            },
    {
        self.write_u32(#[verifier::truncate] (value as u32))
    }

    pub fn write_u64(&mut self, value: u64) -> (r: Result<(), CodecError>)
        requires
            old(self).inv(),
        ensures
            final(self).inv(),
            if codec_fits(*old(self), 8) {
                &&& r == Ok::<(), CodecError>(())
                &&& codec_wrote(*old(self), *final(self), u64_le(value))
            } else {
                &&& r == Err::<(), CodecError>(CodecError::Cursor(CursorError::InsufficientBuffer))
                &&& codec_unchanged(*old(self), *final(self))
            },
    {
        let mut bytes: Vec<u8> = Vec::new();
        bytes.push(#[verifier::truncate] ((value & 0xff) as u8));
        bytes.push(#[verifier::truncate] (((value >> 8) & 0xff) as u8));
        bytes.push(#[verifier::truncate] (((value >> 16) & 0xff) as u8));
        bytes.push(#[verifier::truncate] (((value >> 24) & 0xff) as u8));
        bytes.push(#[verifier::truncate] (((value >> 32) & 0xff) as u8));
        bytes.push(#[verifier::truncate] (((value >> 40) & 0xff) as u8));
        bytes.push(#[verifier::truncate] (((value >> 48) & 0xff) as u8));
        bytes.push(#[verifier::truncate] (((value >> 56) & 0xff) as u8));
        proof {
            assert(bytes@ =~= u64_le(value));
        }
        self.write_bytes(bytes.as_slice())
    }

    pub fn write_i64(&mut self, value: i64) -> (r: Result<(), CodecError>)
        requires
            old(self).inv(),
        ensures
            final(self).inv(),
            if codec_fits(*old(self), 8) {
                &&& r == Ok::<(), CodecError>(())
                &&& codec_wrote(*old(self), *final(self), i64_le(value))
            } else {
                &&& r == Err::<(), CodecError>(CodecError::Cursor(CursorError::InsufficientBuffer))
                &&& codec_unchanged(*old(self), *final(self))
            },
    {
        self.write_u64(#[verifier::truncate] (value as u64))
    }

    /// A pointer-sized value always travels as eight bytes, whatever the
    /// platform's pointer width.
    pub fn write_ptr(&mut self, value: usize) -> (r: Result<(), CodecError>)
        requires
            old(self).inv(),
        ensures
            final(self).inv(),
            if codec_fits(*old(self), 8) {
                &&& r == Ok::<(), CodecError>(())
                &&& codec_wrote(*old(self), *final(self), ptr_le(value))
            } else {
                &&& r == Err::<(), CodecError>(CodecError::Cursor(CursorError::InsufficientBuffer))
                &&& codec_unchanged(*old(self), *final(self))
            },
    {
        self.write_u64(value as u64)
    }

    pub fn write_bool(&mut self, value: bool) -> (r: Result<(), CodecError>)
        requires
            old(self).inv(),
        ensures
            final(self).inv(),
            if codec_fits(*old(self), 1) {
                &&& r == Ok::<(), CodecError>(())
                &&& codec_wrote(*old(self), *final(self), u8_le(bool_byte(value)))
            } else {
                &&& r == Err::<(), CodecError>(CodecError::Cursor(CursorError::InsufficientBuffer))
                &&& codec_unchanged(*old(self), *final(self))
            },
    {
        self.write_u8(if value {
            1
        } else {
            0
        })
    }

    pub fn read_u8(&mut self) -> (r: Result<u8, CodecError>)
        requires
            old(self).inv(),
        ensures
            final(self).inv(),
            final(self).data() == old(self).data(),
            final(self).pos() == old(self).pos() + avail_of(
                old(self).data(),
                old(self).pos() as int,
                1,
            ),
            r == Ok::<u8, CodecError>(
                u8_of_le(read_padded(old(self).data(), old(self).pos() as int, 1)),
            ),
    {
        let b = self.read_padded_vec(1);
        Ok(b[0])
    }

    pub fn read_i8(&mut self) -> (r: Result<i8, CodecError>)
        requires
            old(self).inv(),
        ensures
            final(self).inv(),
            final(self).data() == old(self).data(),
            final(self).pos() == old(self).pos() + avail_of(
                old(self).data(),
                old(self).pos() as int,
                1,
            ),
            r == Ok::<i8, CodecError>(
                i8_of_le(read_padded(old(self).data(), old(self).pos() as int, 1)),
            ),
    {
        match self.read_u8() {
            Ok(v) => Ok(#[verifier::truncate] (v as i8)),
            Err(e) => Err(e),
        }
    }

    pub fn read_u16(&mut self) -> (r: Result<u16, CodecError>)
        requires
            old(self).inv(),
        ensures
            final(self).inv(),
            final(self).data() == old(self).data(),
            final(self).pos() == old(self).pos() + avail_of(
                old(self).data(),
                old(self).pos() as int,
                2,
            ),
            r == Ok::<u16, CodecError>(
                u16_of_le(read_padded(old(self).data(), old(self).pos() as int, 2)),
            ),
    {
        let b = self.read_padded_vec(2);
        Ok((b[0] as u16) | ((b[1] as u16) << 8))
    }

    pub fn read_i16(&mut self) -> (r: Result<i16, CodecError>)
        requires
            old(self).inv(),
        ensures
            final(self).inv(),
            final(self).data() == old(self).data(),
            final(self).pos() == old(self).pos() + avail_of(
                old(self).data(),
                old(self).pos() as int,
                2,
            ),
            r == Ok::<i16, CodecError>(
                i16_of_le(read_padded(old(self).data(), old(self).pos() as int, 2)),
            ),
    {
        match self.read_u16() {
            Ok(v) => Ok(#[verifier::truncate] (v as i16)),
            Err(e) => Err(e),
        }
    }

    pub fn read_u32(&mut self) -> (r: Result<u32, CodecError>)
        requires
            old(self).inv(),
        ensures
            final(self).inv(),
            final(self).data() == old(self).data(),
            final(self).pos() == old(self).pos() + avail_of(
                old(self).data(),
                old(self).pos() as int,
                4,
            ),
            r == Ok::<u32, CodecError>(
                u32_of_le(read_padded(old(self).data(), old(self).pos() as int, 4)),
            ),
    {
        let b = self.read_padded_vec(4);
        Ok(
            (b[0] as u32) | ((b[1] as u32) << 8) | ((b[2] as u32) << 16) | ((b[3] as u32) << 24),
        )
    }

    pub fn read_i32(&mut self) -> (r: Result<i32, CodecError>)
        requires
            old(self).inv(),
        ensures
            final(self).inv(),
            final(self).data() == old(self).data(),
            final(self).pos() == old(self).pos() + avail_of(
                old(self).data(),
                old(self).pos() as int,
                4,
            ),
            r == Ok::<i32, CodecError>(
                i32_of_le(read_padded(old(self).data(), old(self).pos() as int, 4)),
            ),
    {
        match self.read_u32() {
            Ok(v) => Ok(#[verifier::truncate] (v as i32)),
            Err(e) => Err(e),
        }
    }

    pub fn read_u64(&mut self) -> (r: Result<u64, CodecError>)
        requires
            old(self).inv(),
        ensures
            final(self).inv(),
            final(self).data() == old(self).data(),
            final(self).pos() == old(self).pos() + avail_of(
                old(self).data(),
                old(self).pos() as int,
                8,
            ),
            r == Ok::<u64, CodecError>(
                u64_of_le(read_padded(old(self).data(), old(self).pos() as int, 8)),
            ),
    {
        let b = self.read_padded_vec(8);
        Ok(
            (b[0] as u64) | ((b[1] as u64) << 8) | ((b[2] as u64) << 16) | ((b[3] as u64) << 24)
                | ((b[4] as u64) << 32) | ((b[5] as u64) << 40) | ((b[6] as u64) << 48)
                | ((b[7] as u64) << 56),
        )
    }

    pub fn read_i64(&mut self) -> (r: Result<i64, CodecError>)
        requires
            old(self).inv(),
        ensures
            final(self).inv(),
            final(self).data() == old(self).data(),
            final(self).pos() == old(self).pos() + avail_of(
                old(self).data(),
                old(self).pos() as int,
                8,
            ),
            r == Ok::<i64, CodecError>(
                i64_of_le(read_padded(old(self).data(), old(self).pos() as int, 8)),
            ),
    {
        match self.read_u64() {
            Ok(v) => Ok(#[verifier::truncate] (v as i64)),
            Err(e) => Err(e),
        }
    }

    /// Reads a pointer-sized value from its eight wire bytes. On a platform
    /// whose pointers are narrower than 64 bits the value is truncated to
    /// the pointer width, as the spec `ptr_of_le` states.
    pub fn read_ptr(&mut self) -> (r: Result<usize, CodecError>)
        requires
            old(self).inv(),
        ensures
            final(self).inv(),
            final(self).data() == old(self).data(),
            final(self).pos() == old(self).pos() + avail_of(
                old(self).data(),
                old(self).pos() as int,
                8,
            ),
            r == Ok::<usize, CodecError>(
                crate::wire::ptr_of_le(read_padded(old(self).data(), old(self).pos() as int, 8)),
            ),
    {
        match self.read_u64() {
            Ok(v) => Ok(#[verifier::truncate] (v as usize)),
            Err(e) => Err(e),
        }
    }

    /// Reads a boolean: any nonzero byte decodes as true.
    pub fn read_bool(&mut self) -> (r: Result<bool, CodecError>)
        requires
            old(self).inv(),
        ensures
            final(self).inv(),
            final(self).data() == old(self).data(),
            final(self).pos() == old(self).pos() + avail_of(
                old(self).data(),
                old(self).pos() as int,
                1,
            ),
            r == Ok::<bool, CodecError>(
                u8_of_le(read_padded(old(self).data(), old(self).pos() as int, 1)) != 0,
            ),
    {
        match self.read_u8() {
            Ok(v) => Ok(v != 0),
            Err(e) => Err(e),
        }
    }

    /// The length prefix a binary read at the current position would decode.
    pub open spec fn peek_binary_len(&self) -> int {
        u32_of_le(read_padded(self.data(), self.pos() as int, 4)) as int
    }

    /// Writes a `u32` length prefix and then the raw bytes. When the prefix
    /// fits but the bytes do not, the prefix stays committed and the position
    /// sits after it, as the failing write changes nothing itself.
    pub fn write_binary(&mut self, data: &[u8]) -> (r: Result<(), CodecError>)
        requires
            old(self).inv(),
            data@.len() <= u32::MAX,
        ensures
            final(self).inv(),
            if codec_fits(*old(self), 4 + data@.len() as int) {
                &&& r == Ok::<(), CodecError>(())
                &&& codec_wrote(
                    *old(self),
                    *final(self),
                    u32_le(data@.len() as u32) + data@,
                )
            } else if codec_fits(*old(self), 4) {
                &&& r == Err::<(), CodecError>(CodecError::Cursor(CursorError::InsufficientBuffer))
                &&& codec_wrote(*old(self), *final(self), u32_le(data@.len() as u32))
            } else {
                &&& r == Err::<(), CodecError>(CodecError::Cursor(CursorError::InsufficientBuffer))
                &&& codec_unchanged(*old(self), *final(self))
            },
    {
        let len32 = data.len() as u32;
        match self.write_u32(len32) {
            Ok(()) => {},
            Err(e) => {
                return Err(e);
            },
        }
        let ghost mid = *self;
        let r = self.write_bytes(data);
        proof {
            if codec_fits(*old(self), 4 + data@.len() as int) {
                lemma_wrote_compose(*old(self), mid, *self, u32_le(len32), data@);
            }
        }
        r
    }

    /// Writes a string as a length-prefixed run of its UTF-8 bytes, exactly
    /// like a binary blob.
    pub fn write_str(&mut self, value: &str) -> (r: Result<(), CodecError>)
        requires
            old(self).inv(),
            encode_utf8(value@).len() <= u32::MAX,
        ensures
            final(self).inv(),
            if codec_fits(*old(self), 4 + encode_utf8(value@).len() as int) {
                &&& r == Ok::<(), CodecError>(())
                &&& codec_wrote(
                    *old(self),
                    *final(self),
                    u32_le(encode_utf8(value@).len() as u32) + encode_utf8(value@),
                )
            } else if codec_fits(*old(self), 4) {
                &&& r == Err::<(), CodecError>(CodecError::Cursor(CursorError::InsufficientBuffer))
                &&& codec_wrote(*old(self), *final(self), u32_le(encode_utf8(value@).len() as u32))
            } else {
                &&& r == Err::<(), CodecError>(CodecError::Cursor(CursorError::InsufficientBuffer))
                &&& codec_unchanged(*old(self), *final(self))
            },
    {
        self.write_binary(value.as_bytes())
    }

    /// Announces a list of `length` elements; the caller then writes exactly
    /// that many elements, which the codec does not track.
    pub fn start_write_list(&mut self, length: usize) -> (r: Result<(), CodecError>)
        requires
            old(self).inv(),
            length <= u32::MAX,
        ensures
            final(self).inv(),
            if codec_fits(*old(self), 4) {
                &&& r == Ok::<(), CodecError>(())
                &&& codec_wrote(*old(self), *final(self), u32_le(length as u32))
            } else {
                &&& r == Err::<(), CodecError>(CodecError::Cursor(CursorError::InsufficientBuffer))
                &&& codec_unchanged(*old(self), *final(self))
            },
    {
        self.write_u32(length as u32)
    }

    /// Announces a union's active variant by its signed discriminator.
    pub fn start_write_union(&mut self, discriminator: i32) -> (r: Result<(), CodecError>)
        requires
            old(self).inv(),
        ensures
            final(self).inv(),
            if codec_fits(*old(self), 4) {
                &&& r == Ok::<(), CodecError>(())
                &&& codec_wrote(*old(self), *final(self), i32_le(discriminator))
            } else {
                &&& r == Err::<(), CodecError>(CodecError::Cursor(CursorError::InsufficientBuffer))
                &&& codec_unchanged(*old(self), *final(self))
            },
    {
        self.write_i32(discriminator)
    }

    /// Writes the one-byte nullable marker preceding an optional value.
    pub fn write_null_flag(&mut self, is_null: bool) -> (r: Result<(), CodecError>)
        requires
            old(self).inv(),
        ensures
            final(self).inv(),
            if codec_fits(*old(self), 1) {
                &&& r == Ok::<(), CodecError>(())
                &&& codec_wrote(*old(self), *final(self), u8_le(bool_byte(is_null)))
            } else {
                &&& r == Err::<(), CodecError>(CodecError::Cursor(CursorError::InsufficientBuffer))
                &&& codec_unchanged(*old(self), *final(self))
            },
    {
        self.write_u8(if is_null {
            1
        } else {
            0
        })
    }

    /// Writes a callback id as its index in the table of registered ids,
    /// taking the first slot when the table repeats an id. An id absent from
    /// the table fails with `InvalidCallback` and writes nothing. The index
    /// travels as one byte, which caps usable tables at 256 entries.
    pub fn write_callback(&mut self, callback_ids: &[usize], callback_id: usize) -> (r: Result<
        (),
        CodecError,
    >)
        requires
            old(self).inv(),
            callback_ids@.len() <= 256,
        ensures
            final(self).inv(),
            ({
                let fm = first_match(callback_ids@, callback_id);
                if fm == callback_ids@.len() {
                    &&& r == Err::<(), CodecError>(CodecError::InvalidCallback)
                    &&& codec_unchanged(*old(self), *final(self))
                } else if codec_fits(*old(self), 1) {
                    &&& r == Ok::<(), CodecError>(())
                    &&& codec_wrote(*old(self), *final(self), u8_le(fm as u8))
                } else {
                    &&& r == Err::<(), CodecError>(
                        CodecError::Cursor(CursorError::InsufficientBuffer),
                    )
                    &&& codec_unchanged(*old(self), *final(self))
                }
            }),
    {
        proof {
            lemma_first_match(callback_ids@, callback_id);
        }
        let n = callback_ids.len();
        let mut i: usize = 0;
        while i < n
            invariant
                i <= n,
                n == callback_ids@.len(),
                n <= 256,
                *self == *old(self),
                old(self).inv(),
                forall|j: int| 0 <= j < i ==> callback_ids@[j] != callback_id,
            decreases n - i,
        {
            if callback_ids[i] == callback_id {
                proof {
                    lemma_first_match(callback_ids@, callback_id);
                }
                return self.write_u8(i as u8);
            }
            i = i + 1;
        }
        proof {
            lemma_first_match(callback_ids@, callback_id);
        }
        Err(CodecError::InvalidCallback)
    }

    /// Writes the message header: one packed word carrying the protocol
    /// version and the low bytes of the service and request ids together with
    /// the message type, then the sequence number. When only the first word
    /// fits, it stays committed and the sequence write fails.
    pub fn start_write_message(&mut self, message_header: &MessageHeader) -> (r: Result<
        (),
        CodecError,
    >)
        requires
            old(self).inv(),
        ensures
            final(self).inv(),
            if codec_fits(*old(self), 8) {
                &&& r == Ok::<(), CodecError>(())
                &&& codec_wrote(*old(self), *final(self), header_bytes(*message_header))
            } else if codec_fits(*old(self), 4) {
                &&& r == Err::<(), CodecError>(CodecError::Cursor(CursorError::InsufficientBuffer))
                &&& codec_wrote(*old(self), *final(self), u32_le(header_word(*message_header)))
            } else {
                &&& r == Err::<(), CodecError>(CodecError::Cursor(CursorError::InsufficientBuffer))
                &&& codec_unchanged(*old(self), *final(self))
            },
    {
        let t = message_header.message_type.code();
        let word = (PROTOCOL_VERSION << 24) | ((message_header.service & 0xff) << 16) | ((
        message_header.request & 0xff) << 8) | t;
        match self.write_u32(word) {
            Ok(()) => {},
            Err(e) => {
                return Err(e);
            },
        }
        let ghost mid = *self;
        let r = self.write_u32(message_header.sequence);
        proof {
            if codec_fits(*old(self), 8) {
                lemma_wrote_compose(
                    *old(self),
                    mid,
                    *self,
                    u32_le(word),
                    u32_le(message_header.sequence),
                );
            }
        }
        r
    }

    /// Reads a length-prefixed run of raw bytes into the front of `buffer`,
    /// which must be at least as large as the encoded length — no internal
    /// allocation is handed out. Returns how many of the announced bytes
    /// were actually still in the buffer; a truncated stream shows up as a
    /// shorter count.
    pub fn read_binary(&mut self, buffer: &mut Vec<u8>) -> (r: Result<usize, CodecError>)
        requires
            old(self).inv(),
            old(buffer)@.len() >= old(self).peek_binary_len(),
        ensures
            final(self).inv(),
            final(self).data() == old(self).data(),
            ({
                let d = old(self).data();
                let p = old(self).pos() as int;
                let a1 = avail_of(d, p, 4);
                let len = u32_of_le(read_padded(d, p, 4)) as int;
                let n = avail_of(d, p + a1, len);
                &&& r == Ok::<usize, CodecError>(n as usize)
                &&& final(self).pos() == p + a1 + n
                &&& final(buffer)@ == d.subrange(p + a1, p + a1 + n) + old(buffer)@.skip(n)
            }),
    {
        let len32 = match self.read_u32() {
            Ok(v) => v,
            Err(e) => {
                return Err(e);
            },
        };
        let len = len32 as usize;
        let mut tmp = crate::cursor::zero_vec(len);
        let n = match self.cursor.read(&mut tmp) {
            Ok(n) => n,
            Err(e) => {
                return Err(CodecError::Cursor(e));
            },
        };
        crate::cursor::copy_prefix(buffer, tmp.as_slice(), 0, n);
        proof {
            let d = old(self).data();
            let p = old(self).pos() as int;
            let a1 = avail_of(d, p, 4);
            let nn = avail_of(d, p + a1, len as int);
            assert(tmp@.subrange(0, nn) =~= d.subrange(p + a1, p + a1 + nn));
        }
        Ok(n)
    }

    /// Reads a length-prefixed byte run as text. The bytes must be
    /// well-formed UTF-8, else the read fails with `Utf8Error`; either way
    /// they have been consumed. The returned string borrows the front of
    /// `buffer`, which must be at least as large as the encoded length.
    pub fn read_str<'a>(&mut self, buffer: &'a mut Vec<u8>) -> (r: Result<&'a str, CodecError>)
        requires
            old(self).inv(),
            old(buffer)@.len() >= old(self).peek_binary_len(),
        ensures
            final(self).inv(),
            final(self).data() == old(self).data(),
            ({
                let d = old(self).data();
                let p = old(self).pos() as int;
                let a1 = avail_of(d, p, 4);
                let len = u32_of_le(read_padded(d, p, 4)) as int;
                let n = avail_of(d, p + a1, len);
                let bytes = d.subrange(p + a1, p + a1 + n);
                &&& final(self).pos() == p + a1 + n
                &&& final(buffer)@ == bytes + old(buffer)@.skip(n)
                &&& r is Ok <==> valid_utf8(bytes)
                &&& (r matches Ok(s) ==> encode_utf8(s@) == bytes && s@ == decode_utf8(bytes))
                &&& (r is Err ==> r == Err::<&'a str, CodecError>(CodecError::Utf8Error))
            }),
    {
        let ghost d = old(self).data();
        let ghost p = old(self).pos() as int;
        let ghost a1 = avail_of(d, p, 4);
        let ghost len = u32_of_le(read_padded(d, p, 4)) as int;
        let ghost nn = avail_of(d, p + a1, len);
        let ghost bytes = d.subrange(p + a1, p + a1 + nn);
        let n = match self.read_binary(buffer) {
            Ok(n) => n,
            Err(e) => {
                return Err(e);
            },
        };
        proof {
            assert(n == nn);
            assert(buffer@.subrange(0, n as int) =~= bytes);
        }
        let raw = vstd::slice::slice_subrange(buffer.as_slice(), 0, n);
        match bytes_to_str(raw) {
            Some(s) => {
                proof {
                    vstd::utf8::encode_utf8_decode_utf8(s@);
                    assert(encode_utf8(s@) == bytes);
                }
                Ok(s)
            },
            None => Err(CodecError::Utf8Error),
        }
    }

    /// Reads the `u32` element count that opens a list.
    pub fn start_read_list(&mut self) -> (r: Result<usize, CodecError>)
        requires
            old(self).inv(),
        ensures
            final(self).inv(),
            final(self).data() == old(self).data(),
            final(self).pos() == old(self).pos() + avail_of(
                old(self).data(),
                old(self).pos() as int,
                4,
            ),
            r == Ok::<usize, CodecError>(
                u32_of_le(read_padded(old(self).data(), old(self).pos() as int, 4)) as usize,
            ),
    {
        match self.read_u32() {
            Ok(v) => Ok(v as usize),
            Err(e) => Err(e),
        }
    }

    /// Reads the signed discriminator that opens a union.
    pub fn start_read_union(&mut self) -> (r: Result<i32, CodecError>)
        requires
            old(self).inv(),
        ensures
            final(self).inv(),
            final(self).data() == old(self).data(),
            final(self).pos() == old(self).pos() + avail_of(
                old(self).data(),
                old(self).pos() as int,
                4,
            ),
            r == Ok::<i32, CodecError>(
                i32_of_le(read_padded(old(self).data(), old(self).pos() as int, 4)),
            ),
    {
        self.read_i32()
    }

    /// Reads the one-byte nullable marker: any nonzero byte means null.
    pub fn read_null_flag(&mut self) -> (r: Result<bool, CodecError>)
        requires
            old(self).inv(),
        ensures
            final(self).inv(),
            final(self).data() == old(self).data(),
            final(self).pos() == old(self).pos() + avail_of(
                old(self).data(),
                old(self).pos() as int,
                1,
            ),
            r == Ok::<bool, CodecError>(
                u8_of_le(read_padded(old(self).data(), old(self).pos() as int, 1)) != 0,
            ),
    {
        match self.read_u8() {
            Ok(v) => Ok(v != 0),
            Err(e) => Err(e),
        }
    }

    /// Reads a callback index and looks the id up in the table; an index at
    /// or past the end of the table fails with `InvalidCallback`.
    pub fn read_callback(&mut self, callback_ids: &[usize]) -> (r: Result<usize, CodecError>)
        requires
            old(self).inv(),
        ensures
            final(self).inv(),
            final(self).data() == old(self).data(),
            final(self).pos() == old(self).pos() + avail_of(
                old(self).data(),
                old(self).pos() as int,
                1,
            ),
            ({
                let b = u8_of_le(read_padded(old(self).data(), old(self).pos() as int, 1));
                if b < callback_ids@.len() {
                    r == Ok::<usize, CodecError>(callback_ids@[b as int])
                } else {
                    r == Err::<usize, CodecError>(CodecError::InvalidCallback)
                }
            }),
    {
        let v = match self.read_u8() {
            Ok(v) => v,
            Err(e) => {
                return Err(e);
            },
        };
        let index = v as usize;
        if index >= callback_ids.len() {
            Err(CodecError::InvalidCallback)
        } else {
            Ok(*vstd::slice::slice_index_get(callback_ids, index))
        }
    }

    /// Reads the message header: the packed word, then the sequence number.
    /// A word whose low byte names no message type fails with
    /// `InvalidMessageType`; both words have been consumed either way. The
    /// version bits are written on send but not checked here.
    pub fn start_read_message(&mut self) -> (r: Result<MessageHeader, CodecError>)
        requires
            old(self).inv(),
        ensures
            final(self).inv(),
            final(self).data() == old(self).data(),
            ({
                let d = old(self).data();
                let p = old(self).pos() as int;
                let a1 = avail_of(d, p, 4);
                let a2 = avail_of(d, p + a1, 4);
                let w = u32_of_le(read_padded(d, p, 4));
                let s = u32_of_le(read_padded(d, p + a1, 4));
                &&& final(self).pos() == p + a1 + a2
                &&& match decode_header(w, s) {
                    Some(h) => r == Ok::<MessageHeader, CodecError>(h),
                    None => r == Err::<MessageHeader, CodecError>(CodecError::InvalidMessageType),
                }
            }),
    {
        let w = match self.read_u32() {
            Ok(v) => v,
            Err(e) => {
                return Err(e);
            },
        };
        let seqno = match self.read_u32() {
            Ok(v) => v,
            Err(e) => {
                return Err(e);
            },
        };
        let t = match MessageType::from_u32(w & 0xff) {
            Some(t) => t,
            None => {
                return Err(CodecError::InvalidMessageType);
            },
        };
        Ok(
            MessageHeader {
                message_type: t,
                service: (w >> 16) & 0xff,
                request: (w >> 8) & 0xff,
                sequence: seqno,
            },
        )
    }
}

/// Relies on core::str::from_utf8: it succeeds exactly on well-formed UTF-8
/// and returns the string slice viewing those same bytes.
#[verifier::external_body]
fn bytes_to_str(bytes: &[u8]) -> (r: Option<&str>)
    ensures
        r is Some <==> valid_utf8(bytes@),
        r matches Some(s) ==> s.spec_bytes() == bytes@,
{
    core::str::from_utf8(bytes).ok()
}

/// Makes a codec of the matching kind out of a cursor.
pub trait CodecFactory<C: Cursor, T>: Sized {
    /// `made` is the codec this factory builds over `cursor`.
    spec fn wraps(&self, cursor: C, made: T) -> bool;

    fn from_cursor(&mut self, cursor: C) -> (r: T)
        ensures
            final(self).wraps(cursor, r),
    ;
}

/// The factory for `BasicCodec`; it carries no state of its own.
pub struct BasicCodecFactory<C: Cursor> {
    pub marker: core::marker::PhantomData<C>,
}

impl<C: Cursor> BasicCodecFactory<C> {
    pub fn new() -> (r: Self)
        ensures
            r == (BasicCodecFactory { marker: core::marker::PhantomData::<C> }),
    {
        Self { marker: core::marker::PhantomData }
    }
}

impl<C: Cursor> Default for BasicCodecFactory<C> {
    fn default() -> (r: Self)
        ensures
            r == (BasicCodecFactory { marker: core::marker::PhantomData::<C> }),
    {
        Self::new()
    }
}

impl<C: Cursor> CodecFactory<C, BasicCodec<C>> for BasicCodecFactory<C> {
    open spec fn wraps(&self, cursor: C, made: BasicCodec<C>) -> bool {
        made == (BasicCodec { cursor })
    }

    fn from_cursor(&mut self, cursor: C) -> (r: BasicCodec<C>) {
        BasicCodec::new(cursor)
    }
}

/// Reading a binary blob back from the buffer it was written into recovers
/// exactly what was written: the length prefix decodes to the byte count and
/// the payload bytes survive unchanged, zero bytes included.
pub proof fn lemma_binary_round_trip(s: Seq<u8>, at: int, data: Seq<u8>)
    requires
        0 <= at,
        data.len() <= u32::MAX,
        at + 4 + data.len() <= s.len(),
    ensures
        ({
            let d2 = overwrite(s, at, u32_le(data.len() as u32) + data);
            &&& u32_of_le(read_padded(d2, at, 4)) == data.len()
            &&& read_padded(d2, at + 4, data.len() as int) == data
        }),
{
    let enc = u32_le(data.len() as u32) + data;
    let d2 = overwrite(s, at, enc);
    crate::wire::lemma_overwrite_read_back(s, at, enc);
    crate::wire::lemma_read_padded_in_bounds(d2, at, 4);
    crate::wire::lemma_read_padded_in_bounds(d2, at + 4, data.len() as int);
    assert(d2.subrange(at, at + 4) =~= u32_le(data.len() as u32));
    assert(d2.subrange(at + 4, at + 4 + data.len()) =~= data);
    crate::wire::lemma_u32_round_trip(data.len() as u32);
}

/// A string written and read back through a buffer decodes to the same
/// text: its UTF-8 bytes survive the trip, stay well-formed, and decode to
/// the characters that were written — multi-byte characters included.
pub proof fn lemma_string_round_trip(s: Seq<u8>, at: int, text: Seq<char>)
    requires
        0 <= at,
        encode_utf8(text).len() <= u32::MAX,
        at + 4 + encode_utf8(text).len() <= s.len(),
    ensures
        ({
            let bytes = encode_utf8(text);
            let d2 = overwrite(s, at, u32_le(bytes.len() as u32) + bytes);
            &&& u32_of_le(read_padded(d2, at, 4)) == bytes.len()
            &&& read_padded(d2, at + 4, bytes.len() as int) == bytes
            &&& valid_utf8(bytes)
            &&& decode_utf8(bytes) == text
        }),
{
    lemma_binary_round_trip(s, at, encode_utf8(text));
    vstd::utf8::encode_utf8_valid_utf8(text);
    vstd::utf8::encode_utf8_decode_utf8(text);
}

/// Decoding an encoded header recovers the exact fields, with the service
/// and request ids reduced to their low byte — all the wire carries of them.
pub proof fn lemma_header_round_trip(h: MessageHeader)
    ensures
        header_bytes(h).len() == 8,
        header_bytes(h).subrange(0, 4) == u32_le(header_word(h)),
        header_bytes(h).subrange(4, 8) == u32_le(h.sequence),
        decode_header(header_word(h), h.sequence) == Some(
            MessageHeader {
                message_type: h.message_type,
                service: h.service & 0xff,
                request: h.request & 0xff,
                sequence: h.sequence,
            },
        ),
{
    assert(header_bytes(h).subrange(0, 4) =~= u32_le(header_word(h)));
    assert(header_bytes(h).subrange(4, 8) =~= u32_le(h.sequence));
    let t = crate::request::message_type_code(h.message_type);
    let s = h.service;
    let q = h.request;
    assert(t <= 3);
    assert(((1u32 << 24) | ((s & 0xff) << 16) | ((q & 0xff) << 8) | t) & 0xff == t && (((1u32
        << 24) | ((s & 0xff) << 16) | ((q & 0xff) << 8) | t) >> 16) & 0xff == s & 0xff && (((1u32
        << 24) | ((s & 0xff) << 16) | ((q & 0xff) << 8) | t) >> 8) & 0xff == q & 0xff)
        by (bit_vector)
        requires
            t <= 3,
    ;
}

/// A callback id present in the table writes as an index that reads back to
/// the same id; the first matching slot is the one taken, and the one-byte
/// index carries it faithfully in any table of at most 256 entries.
pub proof fn lemma_callback_round_trip(ids: Seq<usize>, id: usize)
    requires
        ids.len() <= 256,
        exists|i: int| 0 <= i < ids.len() && ids[i] == id,
    ensures
        ({
            let fm = first_match(ids, id);
            &&& 0 <= fm < ids.len()
            &&& ids[fm] == id
            &&& (fm as u8) < ids.len()
            &&& ids[(fm as u8) as int] == id
        }),
{
    lemma_first_match(ids, id);
    let fm = first_match(ids, id);
    if fm == ids.len() {
        let i = choose|i: int| 0 <= i < ids.len() && ids[i] == id;
        assert(ids[i] != id);
        assert(false);
    }
}

impl From<CursorError> for CodecError {
    fn from(error: CursorError) -> (r: Self) {
        CodecError::Cursor(error)
    }
}

impl vstd::std_specs::convert::FromSpecImpl<CursorError> for CodecError {
    open spec fn obeys_from_spec() -> bool {
        true
    }

    open spec fn from_spec(error: CursorError) -> Self {
        CodecError::Cursor(error)
    }
}

} // verus!
