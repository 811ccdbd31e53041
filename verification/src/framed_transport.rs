//! Checksum-protected, length-prefixed framing over a raw byte channel.
//!
//! One logical message travels as one frame: a `u16` little-endian length, a
//! `u16` little-endian CRC16 of the payload, then the payload itself. The
//! checksum covers the payload only, never the four header bytes. Frames are
//! capped at 65535 payload bytes — the most the length field can carry.
//!
//! The CRC is the table-driven 16-bit cyclic check with polynomial `0x1021`
//! and initial value `0xEF4A`, folded over the payload byte by byte. Each
//! transport builds the 256-entry table once when it is created and treats
//! it as read-only from then on.

use vstd::prelude::*;

use crate::codec::BasicCodec;
use crate::cursor::{Cursor, CursorError, SliceCursor};
use crate::wire::{avail_of, read_padded, u16_le, u16_of_le};

verus! {

/// Initial value of the frame checksum.
pub const CRC16_START: u16 = 0xEF4A;

/// Generator polynomial of the frame checksum.
pub const CRC16_POLY: u16 = 0x1021;

/// The hard ceiling on a frame's payload length.
pub const MAX_MESSAGE_SIZE: usize = 65535;

/// The remaining rounds of the table computation: shift the working value
/// left, folding the polynomial in whenever the outgoing bit of the shifted
/// index disagrees with it.
pub open spec fn crc16_table_rounds(crc: u16, index: u16, poly: u16, rounds: nat) -> u16
    decreases rounds,
{
    if rounds == 0 {
        crc
    } else {
        let t = crc ^ index;
        let shifted = crc << 1;
        let folded = if t & 0x8000 != 0 {
            shifted ^ poly
        } else {
            shifted
        };
        crc16_table_rounds(folded, index << 1, poly, (rounds - 1) as nat)
    }
}

/// One table entry: eight rounds over the index placed in the high byte.
pub open spec fn crc16_table_entry(index: u8, poly: u16) -> u16 {
    crc16_table_rounds(0, (index as u16) << 8, poly, 8)
}

/// One step of the checksum: fold the next byte into the running value.
pub open spec fn crc16_update(crc: u16, byte: u8) -> u16 {
    (crc << 8) ^ crc16_table_entry((((crc >> 8) ^ (byte as u16)) & 0xff) as u8, CRC16_POLY)
}

/// The frame checksum of a byte sequence, folded left to right from the
/// initial value.
pub open spec fn crc16_of(data: Seq<u8>) -> u16
    decreases data.len(),
{
    if data.len() == 0 {
        CRC16_START
    } else {
        crc16_update(crc16_of(data.drop_last()), data.last())
    }
}

/// A full 256-entry table for the polynomial in use.
pub open spec fn crc16_table_ok(table: Seq<u16>) -> bool {
    &&& table.len() == 256
    &&& forall|k: int| 0 <= k < 256 ==> table[k] == crc16_table_entry(k as u8, CRC16_POLY)
}

proof fn lemma_low_byte_bound(x: u16)
    by (bit_vector)
    ensures
        x & 0xff < 256,
{
}

/// The table entry for `index`, computed bit by bit.
pub fn compute_table(index: u8, poly: u16) -> (r: u16)
    ensures
        r == crc16_table_entry(index, poly),
{
    let mut crc: u16 = 0;
    let mut i: u16 = (index as u16) << 8;
    let mut round: usize = 0;
    while round < 8
        invariant
            round <= 8,
            crc16_table_rounds(crc, i, poly, (8 - round) as nat) == crc16_table_entry(index, poly),
        decreases 8 - round,
    {
        let t = crc ^ i;
        crc = crc << 1;
        if (t & 0x8000u16) != 0 {
            crc = crc ^ poly;
        }
        i = i << 1;
        round = round + 1;
    }
    crc
}

/// All 256 table entries for the frame polynomial.
pub fn build_crc16_table() -> (r: Vec<u16>)
    ensures
        crc16_table_ok(r@),
{
    let mut table: Vec<u16> = Vec::new();
    let mut k: usize = 0;
    while k < 256
        invariant
            k <= 256,
            table@.len() == k,
            forall|j: int| 0 <= j < k ==> table@[j] == crc16_table_entry(j as u8, CRC16_POLY),
        decreases 256 - k,
    {
        table.push(compute_table(k as u8, CRC16_POLY));
        k = k + 1;
    }
    table
}

/// Folds the checksum over `data` with a prebuilt table.
fn crc16_fold(table: &Vec<u16>, data: &[u8]) -> (r: u16)
    requires
        crc16_table_ok(table@),
    ensures
        r == crc16_of(data@),
{
    let mut crc: u16 = CRC16_START;
    let mut k: usize = 0;
    while k < data.len()
        invariant
            k <= data@.len(),
            crc16_table_ok(table@),
            crc == crc16_of(data@.take(k as int)),
        decreases data@.len() - k,
    {
        let b = data[k];
        let index = (((crc >> 8) ^ (b as u16)) & 0xff) as usize;
        proof {
            lemma_low_byte_bound((crc >> 8) ^ (b as u16));
            assert(data@.take(k + 1).drop_last() =~= data@.take(k as int));
            assert(data@.take(k + 1).last() == data@[k as int]);
        }
        crc = (crc << 8) ^ table[index];
        k = k + 1;
    }
    proof {
        assert(data@.take(data@.len() as int) =~= data@);
    }
    crc
}

/// The frame checksum of `data`: CRC16 with polynomial `0x1021` starting
/// from `0xEF4A`, over the payload bytes only.
pub fn checksum_crc16(data: &[u8]) -> (r: u16)
    ensures
        r == crc16_of(data@),
{
    let table = build_crc16_table();
    crc16_fold(&table, data)
}

#[derive(Debug, Copy, Clone, Eq, PartialEq)]
pub enum FramedTransportError<UnderlyingError> {
    /// The caller's buffer is smaller than the frame's declared length. The
    /// header has already been consumed, so the stream is desynchronized;
    /// treat this as fatal for the connection.
    BufferTooShort,
    /// The payload exceeds the frame size ceiling; nothing was sent.
    DataTooLong,
    /// The received payload does not match its checksum.
    ChecksumError,
    /// The frame header declares a length beyond the ceiling.
    InvalidHeader,
    /// The raw channel beneath the framing failed.
    UnderlyingError(UnderlyingError),
}

impl<UnderlyingError> From<UnderlyingError> for FramedTransportError<UnderlyingError> {
    fn from(err: UnderlyingError) -> (r: Self) {
        FramedTransportError::UnderlyingError(err)
    }
}

impl<UnderlyingError> vstd::std_specs::convert::FromSpecImpl<UnderlyingError> for FramedTransportError<UnderlyingError> {
    open spec fn obeys_from_spec() -> bool {
        true
    }

    open spec fn from_spec(err: UnderlyingError) -> Self {
        FramedTransportError::UnderlyingError(err)
    }
}

/// The bytes of one frame: length, checksum, then the payload itself.
pub open spec fn frame_bytes(payload: Seq<u8>) -> Seq<u8> {
    u16_le(payload.len() as u16) + u16_le(crc16_of(payload)) + payload
}

/// The four header bytes a receiver sees at the head of `s`, zero-extended
/// when the stream ends early.
pub open spec fn frame_head(s: Seq<u8>) -> Seq<u8> {
    read_padded(s, 0, 4)
}

/// The payload length the header at the head of `s` declares.
pub open spec fn frame_declared_len(s: Seq<u8>) -> u16 {
    u16_of_le(frame_head(s).subrange(0, 2))
}

/// The checksum the header at the head of `s` declares.
pub open spec fn frame_declared_crc(s: Seq<u8>) -> u16 {
    u16_of_le(frame_head(s).subrange(2, 4))
}

/// How many bytes of `s` the header read consumes: four, or everything when
/// the stream is shorter.
pub open spec fn frame_head_taken(s: Seq<u8>) -> int {
    avail_of(s, 0, 4)
}

/// The payload a receiver reads after the header of `s`: the declared
/// length, zero-extended when the stream ends early.
pub open spec fn frame_read_payload(s: Seq<u8>) -> Seq<u8> {
    read_padded(s.skip(frame_head_taken(s)), 0, frame_declared_len(s) as int)
}

/// What remains of `s` after the header and payload reads.
pub open spec fn frame_rest(s: Seq<u8>) -> Seq<u8> {
    let s1 = s.skip(frame_head_taken(s));
    s1.skip(avail_of(s1, 0, frame_declared_len(s) as int))
}

/// The raw byte channel beneath the framing layer: anything with blocking
/// exact-length reads and all-or-nothing writes. A cursor over a buffer
/// serves as an in-memory channel; an adapter over a serial port or socket
/// lives outside the library and implements the same contract.
///
/// `sent()` is every byte a successful `write_all` has pushed; `to_read()`
/// is what lies ahead of the read position. For a channel whose reads and
/// writes share one position, a write also consumes from `to_read()`, so
/// neither operation promises anything about the other's view.
pub trait UnderlyingTransport: Sized {
    type Error;

    /// Well-formedness of the channel state. An implementation outside the
    /// library may leave these three at their defaults, which promise
    /// nothing about the channel's content.
    open spec fn inv(&self) -> bool {
        true
    }

    /// Every byte successfully written so far.
    open spec fn sent(&self) -> Seq<u8> {
        Seq::empty()
    }

    /// The bytes waiting ahead of the read position.
    open spec fn to_read(&self) -> Seq<u8> {
        Seq::empty()
    }

    /// Fills `data` from the head of the stream. On success the filled
    /// prefix is exactly the next stream bytes; when fewer remain, they fill
    /// the front of `data` and the rest of `data` keeps its old bytes.
    fn read_exact(&mut self, data: &mut Vec<u8>) -> (r: Result<(), Self::Error>)
        requires
            old(self).inv(),
        ensures
            final(self).inv(),
            final(data)@.len() == old(data)@.len(),
            r is Ok ==> ({
                let avl = avail_of(old(self).to_read(), 0, old(data)@.len() as int);
                &&& final(data)@ == old(self).to_read().subrange(0, avl) + old(data)@.skip(avl)
                &&& final(self).to_read() == old(self).to_read().skip(avl)
            }),
    ;

    /// Appends all of `data` to the stream, or fails without a promise of
    /// what was pushed.
    fn write_all(&mut self, data: &[u8]) -> (r: Result<(), Self::Error>)
        requires
            old(self).inv(),
        ensures
            final(self).inv(),
            r is Ok ==> final(self).sent() == old(self).sent() + data@,
    ;
}

/// Any cursor is an in-memory byte channel: reads consume at the position,
/// writes append at the position.
impl<C: Cursor> UnderlyingTransport for C {
    type Error = CursorError;

    open spec fn inv(&self) -> bool {
        self.pos() <= self.data().len()
    }

    open spec fn sent(&self) -> Seq<u8> {
        self.data().take(self.pos() as int)
    }

    open spec fn to_read(&self) -> Seq<u8> {
        self.data().skip(self.pos() as int)
    }

    fn read_exact(&mut self, data: &mut Vec<u8>) -> (r: Result<(), Self::Error>) {
        let ghost pre = *self;
        let ghost data0 = data@;
        match self.read(data) {
            Ok(_) => {
                proof {
                    let avl = avail_of(pre.to_read(), 0, data0.len() as int);
                    assert(pre.to_read().subrange(0, avl) =~= pre.data().subrange(
                        pre.pos() as int,
                        pre.pos() + avl,
                    ));
                    assert(final(self).to_read() =~= pre.to_read().skip(avl));
                }
                Ok(())
            },
            Err(e) => Err(e),
        }
    }

    fn write_all(&mut self, data: &[u8]) -> (r: Result<(), Self::Error>) {
        let ghost pre = *self;
        let r = self.write(data);
        proof {
            if r is Ok {
                assert(final(self).sent() =~= pre.sent() + data@);
            }
        }
        r
    }
}

/// One delimited message per call over an underlying channel, in the frame
/// format above. The wire format is fixed; implementations differ in the
/// channel beneath them.
pub trait FramedTransport<UnderlyingError>: Sized {
    /// Well-formedness of the transport state.
    spec fn inv(&self) -> bool;

    /// Every byte pushed onto the wire so far.
    spec fn sent(&self) -> Seq<u8>;

    /// The bytes waiting ahead of the read position.
    spec fn to_read(&self) -> Seq<u8>;

    /// The fixed ceiling on a payload's length.
    fn get_max_message_size(&self) -> (r: usize)
        ensures
            r == MAX_MESSAGE_SIZE,
    ;

    /// Sends `data` as one frame. Payloads over the ceiling fail with
    /// `DataTooLong` before anything is written; a channel failure surfaces
    /// as `UnderlyingError`, possibly after part of the frame went out.
    fn send(&mut self, data: &[u8]) -> (r: Result<(), FramedTransportError<UnderlyingError>>)
        requires
            old(self).inv(),
        ensures
            final(self).inv(),
            match r {
                Ok(()) => data@.len() <= MAX_MESSAGE_SIZE
                    && final(self).sent() == old(self).sent() + frame_bytes(data@),
                Err(FramedTransportError::DataTooLong) => data@.len() > MAX_MESSAGE_SIZE
                    && *final(self) == *old(self),
                Err(FramedTransportError::UnderlyingError(_)) => data@.len() <= MAX_MESSAGE_SIZE,
                Err(_) => false,
            },
    ;

    /// Receives one frame into the front of `buffer` and returns its length.
    /// The declared payload must fit `buffer`, else `BufferTooShort` — with
    /// the header already consumed; a payload that fails its checksum is
    /// consumed and reported as `ChecksumError`.
    fn receive(&mut self, buffer: &mut Vec<u8>) -> (r: Result<
        usize,
        FramedTransportError<UnderlyingError>,
    >)
        requires
            old(self).inv(),
        ensures
            final(self).inv(),
            final(buffer)@.len() == old(buffer)@.len(),
            ({
                let s = old(self).to_read();
                match r {
                    Ok(n) => {
                        &&& n == frame_declared_len(s)
                        &&& frame_declared_len(s) as int <= old(buffer)@.len()
                        &&& frame_declared_crc(s) == crc16_of(frame_read_payload(s))
                        &&& final(buffer)@ == frame_read_payload(s) + old(buffer)@.skip(
                            frame_declared_len(s) as int,
                        )
                        &&& final(self).to_read() == frame_rest(s)
                    },
                    Err(FramedTransportError::BufferTooShort) => {
                        &&& frame_declared_len(s) as int > old(buffer)@.len()
                        &&& final(buffer)@ == old(buffer)@
                        &&& final(self).to_read() == s.skip(frame_head_taken(s))
                    },
                    Err(FramedTransportError::ChecksumError) => {
                        &&& frame_declared_len(s) as int <= old(buffer)@.len()
                        &&& frame_declared_crc(s) != crc16_of(frame_read_payload(s))
                        &&& final(buffer)@ == old(buffer)@
                        &&& final(self).to_read() == frame_rest(s)
                    },
                    Err(FramedTransportError::UnderlyingError(_)) => final(buffer)@ == old(buffer)@,
                    Err(_) => false,
                }
            }),
    ;
}

/// The one framing implementation: CRC16-checked length-prefixed frames over
/// any `UnderlyingTransport`. It owns the checksum table, built once in
/// `new` and read-only afterwards.
pub struct BasicFramedTransport<Underlying: UnderlyingTransport> {
    pub underlying: Underlying,
    pub table: Vec<u16>,
}

impl<Underlying: UnderlyingTransport> BasicFramedTransport<Underlying> {
    /// Wraps a raw channel, building the checksum table.
    pub fn new(underlying: Underlying) -> (r: Self)
        ensures
            r.underlying == underlying,
            crc16_table_ok(r.table@),
    {
        let table = build_crc16_table();
        Self { underlying, table }
    }

    /// Hands the raw channel back, consuming the transport.
    pub fn release(self) -> (r: Underlying)
        ensures
            r == self.underlying,
    {
        self.underlying
    }
}

impl<Underlying: UnderlyingTransport> FramedTransport<
    Underlying::Error,
> for BasicFramedTransport<Underlying> {
    open spec fn inv(&self) -> bool {
        crc16_table_ok(self.table@) && self.underlying.inv()
    }

    open spec fn sent(&self) -> Seq<u8> {
        self.underlying.sent()
    }

    open spec fn to_read(&self) -> Seq<u8> {
        self.underlying.to_read()
    }

    fn get_max_message_size(&self) -> (r: usize) {
        MAX_MESSAGE_SIZE
    }

    fn send(&mut self, data: &[u8]) -> (r: Result<
        (),
        FramedTransportError<Underlying::Error>,
    >) {
        let length = data.len();
        if length > self.get_max_message_size() {
            return Err(FramedTransportError::DataTooLong);
        }
        let checksum = crc16_fold(&self.table, data);
        let cursor = SliceCursor::new(crate::cursor::zero_vec(4));
        let mut codec = BasicCodec::new(cursor);
        let _ = codec.write_u16(length as u16);
        let _ = codec.write_u16(checksum);
        let header = codec.detach().release();
        proof {
            assert(header@ =~= u16_le(length as u16) + u16_le(checksum));
        }
        let ghost sent0 = self.underlying.sent();
        match self.underlying.write_all(header.as_slice()) {
            Ok(()) => {},
            Err(e) => {
                return Err(FramedTransportError::UnderlyingError(e));
            },
        }
        match self.underlying.write_all(data) {
            Ok(()) => {},
            Err(e) => {
                return Err(FramedTransportError::UnderlyingError(e));
            },
        }
        proof {
            assert(self.underlying.sent() =~= sent0 + frame_bytes(data@));
        }
        Ok(())
    }

    fn receive(&mut self, buffer: &mut Vec<u8>) -> (r: Result<
        usize,
        FramedTransportError<Underlying::Error>,
    >) {
        let ghost s = self.underlying.to_read();
        let mut header = crate::cursor::zero_vec(4);
        match self.underlying.read_exact(&mut header) {
            Ok(()) => {},
            Err(e) => {
                return Err(FramedTransportError::UnderlyingError(e));
            },
        }
        proof {
            assert(header@ =~= frame_head(s));
            assert(read_padded(header@, 0, 2) =~= frame_head(s).subrange(0, 2));
            assert(read_padded(header@, 2, 2) =~= frame_head(s).subrange(2, 4));
        }
        let cursor = SliceCursor::new(header);
        let mut codec = BasicCodec::new(cursor);
        let length_u16 = codec.read_u16().unwrap();
        let checksum = codec.read_u16().unwrap();
        let length = length_u16 as usize;
        if length > self.get_max_message_size() {
            return Err(FramedTransportError::InvalidHeader);
        }
        if buffer.len() < length {
            return Err(FramedTransportError::BufferTooShort);
        }
        let mut payload = crate::cursor::zero_vec(length);
        match self.underlying.read_exact(&mut payload) {
            Ok(()) => {},
            Err(e) => {
                return Err(FramedTransportError::UnderlyingError(e));
            },
        }
        proof {
            assert(payload@ =~= frame_read_payload(s));
        }
        let calculated = crc16_fold(&self.table, payload.as_slice());
        if calculated != checksum {
            return Err(FramedTransportError::ChecksumError);
        }
        crate::cursor::copy_prefix(buffer, payload.as_slice(), 0, length);
        proof {
            assert(payload@.subrange(0, length as int) =~= payload@);
            assert(final(buffer)@ =~= frame_read_payload(s) + old(buffer)@.skip(length as int));
        }
        Ok(length)
    }
}

/// A stream that starts with the frame of `payload` parses back to exactly
/// that payload, with the rest of the stream untouched behind it.
pub proof fn lemma_frame_round_trip(payload: Seq<u8>, rest: Seq<u8>)
    requires
        payload.len() <= MAX_MESSAGE_SIZE,
    ensures
        ({
            let s = frame_bytes(payload) + rest;
            &&& frame_declared_len(s) == payload.len()
            &&& frame_declared_crc(s) == crc16_of(payload)
            &&& frame_read_payload(s) == payload
            &&& frame_rest(s) == rest
        }),
{
    let s = frame_bytes(payload) + rest;
    assert(s.len() == 4 + payload.len() + rest.len());
    crate::wire::lemma_read_padded_in_bounds(s, 0, 4);
    assert(frame_head(s) =~= u16_le(payload.len() as u16) + u16_le(crc16_of(payload)));
    assert(frame_head(s).subrange(0, 2) =~= u16_le(payload.len() as u16));
    assert(frame_head(s).subrange(2, 4) =~= u16_le(crc16_of(payload)));
    crate::wire::lemma_u16_round_trip(payload.len() as u16);
    crate::wire::lemma_u16_round_trip(crc16_of(payload));
    assert(frame_declared_len(s) == payload.len() as u16);
    let s1 = s.skip(4);
    assert(s1 =~= payload + rest);
    crate::wire::lemma_read_padded_in_bounds(s1, 0, payload.len() as int);
    assert(frame_read_payload(s) =~= payload);
    assert(frame_rest(s) =~= rest);
}

} // verus!
