//! Byte-level model of the wire format.
//!
//! Every multi-byte scalar on the wire is little-endian. The spec functions
//! here give the exact bytes of each fixed-width scalar, the value read back
//! from such bytes, and the two editing operations a cursor performs on a
//! buffer: overwriting a range in place and reading a range with zero padding
//! when the buffer runs out. The lemmas state that decoding inverts encoding.

use vstd::prelude::*;

verus! {

/// Little-endian bytes of a 16-bit value, least significant byte first.
pub open spec fn u16_le(v: u16) -> Seq<u8> {
    seq![(v & 0xff) as u8, ((v >> 8) & 0xff) as u8]
}

/// Little-endian bytes of a 32-bit value.
pub open spec fn u32_le(v: u32) -> Seq<u8> {
    seq![
        (v & 0xff) as u8,
        ((v >> 8) & 0xff) as u8,
        ((v >> 16) & 0xff) as u8,
        ((v >> 24) & 0xff) as u8,
    ]
}

/// Little-endian bytes of a 64-bit value.
pub open spec fn u64_le(v: u64) -> Seq<u8> {
    seq![
        (v & 0xff) as u8,
        ((v >> 8) & 0xff) as u8,
        ((v >> 16) & 0xff) as u8,
        ((v >> 24) & 0xff) as u8,
        ((v >> 32) & 0xff) as u8,
        ((v >> 40) & 0xff) as u8,
        ((v >> 48) & 0xff) as u8,
        ((v >> 56) & 0xff) as u8,
    ]
}

/// The 16-bit value carried by two little-endian bytes.
pub open spec fn u16_of_le(b: Seq<u8>) -> u16
    recommends
        b.len() == 2,
{
    (b[0] as u16) | ((b[1] as u16) << 8)
}

/// The 32-bit value carried by four little-endian bytes.
pub open spec fn u32_of_le(b: Seq<u8>) -> u32
    recommends
        b.len() == 4,
{
    (b[0] as u32) | ((b[1] as u32) << 8) | ((b[2] as u32) << 16) | ((b[3] as u32) << 24)
}

/// The 64-bit value carried by eight little-endian bytes.
pub open spec fn u64_of_le(b: Seq<u8>) -> u64
    recommends
        b.len() == 8,
{
    (b[0] as u64) | ((b[1] as u64) << 8) | ((b[2] as u64) << 16) | ((b[3] as u64) << 24)
        | ((b[4] as u64) << 32) | ((b[5] as u64) << 40) | ((b[6] as u64) << 48)
        | ((b[7] as u64) << 56)
}

/// The single wire byte of an 8-bit value.
pub open spec fn u8_le(v: u8) -> Seq<u8> {
    seq![v]
}

/// The 8-bit value carried by one wire byte.
pub open spec fn u8_of_le(b: Seq<u8>) -> u8
    recommends
        b.len() == 1,
{
    b[0]
}

/// Signed scalars travel as the two's-complement image of their width.
pub open spec fn i8_le(v: i8) -> Seq<u8> {
    u8_le(v as u8)
}

pub open spec fn i8_of_le(b: Seq<u8>) -> i8
    recommends
        b.len() == 1,
{
    u8_of_le(b) as i8
}

pub open spec fn i16_le(v: i16) -> Seq<u8> {
    u16_le(v as u16)
}

pub open spec fn i16_of_le(b: Seq<u8>) -> i16
    recommends
        b.len() == 2,
{
    u16_of_le(b) as i16
}

pub open spec fn i32_le(v: i32) -> Seq<u8> {
    u32_le(v as u32)
}

pub open spec fn i32_of_le(b: Seq<u8>) -> i32
    recommends
        b.len() == 4,
{
    u32_of_le(b) as i32
}

pub open spec fn i64_le(v: i64) -> Seq<u8> {
    u64_le(v as u64)
}

pub open spec fn i64_of_le(b: Seq<u8>) -> i64
    recommends
        b.len() == 8,
{
    u64_of_le(b) as i64
}

/// A pointer-sized value travels as eight little-endian bytes.
pub open spec fn ptr_le(v: usize) -> Seq<u8> {
    u64_le(v as u64)
}

pub open spec fn ptr_of_le(b: Seq<u8>) -> usize
    recommends
        b.len() == 8,
{
    u64_of_le(b) as usize
}

/// The wire byte of a boolean: 1 for true, 0 for false.
pub open spec fn bool_byte(v: bool) -> u8 {
    if v {
        1
    } else {
        0
    }
}

/// `s` with the range starting at `at` replaced by `b`; the length is kept.
pub open spec fn overwrite(s: Seq<u8>, at: int, b: Seq<u8>) -> Seq<u8>
    recommends
        0 <= at,
        at + b.len() <= s.len(),
{
    s.take(at) + b + s.skip(at + b.len())
}

/// How many of `n` requested bytes are still available at `at` in `s`.
pub open spec fn avail_of(s: Seq<u8>, at: int, n: int) -> int
    recommends
        0 <= at <= s.len(),
        0 <= n,
{
    if s.len() - at < n {
        s.len() - at
    } else {
        n
    }
}

/// The `n` bytes a scalar read at `at` sees: whatever is left of the buffer,
/// extended with zeroes to the requested width (the read destination starts
/// out zeroed and only its prefix is filled on a short read).
pub open spec fn read_padded(s: Seq<u8>, at: int, n: int) -> Seq<u8>
    recommends
        0 <= at <= s.len(),
        0 <= n,
{
    s.subrange(at, at + avail_of(s, at, n)) + Seq::new((n - avail_of(s, at, n)) as nat, |i: int| 0u8)
}

/// A read that stays within the buffer sees exactly the bytes in place.
pub proof fn lemma_read_padded_in_bounds(s: Seq<u8>, at: int, n: int)
    requires
        0 <= at,
        0 <= n,
        at + n <= s.len(),
    ensures
        read_padded(s, at, n) == s.subrange(at, at + n),
{
    assert(avail_of(s, at, n) == n);
    assert(read_padded(s, at, n) =~= s.subrange(at, at + n));
}

/// Overwriting and then reading back the same range recovers the bytes written.
pub proof fn lemma_overwrite_read_back(s: Seq<u8>, at: int, b: Seq<u8>)
    requires
        0 <= at,
        at + b.len() <= s.len(),
    ensures
        overwrite(s, at, b).len() == s.len(),
        overwrite(s, at, b).subrange(at, at + b.len()) == b,
{
    assert(overwrite(s, at, b).subrange(at, at + b.len()) =~= b);
}

/// Bytes written into a buffer read back exactly, wherever in the buffer
/// they landed.
pub proof fn lemma_overwrite_read_padded(s: Seq<u8>, at: int, b: Seq<u8>)
    requires
        0 <= at,
        at + b.len() <= s.len(),
    ensures
        read_padded(overwrite(s, at, b), at, b.len() as int) == b,
{
    lemma_overwrite_read_back(s, at, b);
    lemma_read_padded_in_bounds(overwrite(s, at, b), at, b.len() as int);
}

/// Decoding the wire byte of a boolean recovers it.
pub proof fn lemma_bool_round_trip(v: bool)
    ensures
        (u8_of_le(u8_le(bool_byte(v))) != 0) == v,
{
}

/// Decoding two little-endian bytes recovers the 16-bit value they encode.
pub proof fn lemma_u16_round_trip(v: u16)
    ensures
        u16_of_le(u16_le(v)) == v,
{
    assert((((v & 0xff) as u8) as u16) | (((((v >> 8) & 0xff) as u8) as u16) << 8) == v)
        by (bit_vector);
}

/// Decoding four little-endian bytes recovers the 32-bit value they encode.
pub proof fn lemma_u32_round_trip(v: u32)
    ensures
        u32_of_le(u32_le(v)) == v,
{
    assert((((v & 0xff) as u8) as u32) | (((((v >> 8) & 0xff) as u8) as u32) << 8)
        | (((((v >> 16) & 0xff) as u8) as u32) << 16) | (((((v >> 24) & 0xff) as u8) as u32) << 24)
        == v) by (bit_vector);
}

/// Decoding eight little-endian bytes recovers the 64-bit value they encode.
pub proof fn lemma_u64_round_trip(v: u64)
    ensures
        u64_of_le(u64_le(v)) == v,
{
    assert((((v & 0xff) as u8) as u64) | (((((v >> 8) & 0xff) as u8) as u64) << 8)
        | (((((v >> 16) & 0xff) as u8) as u64) << 16) | (((((v >> 24) & 0xff) as u8) as u64) << 24)
        | (((((v >> 32) & 0xff) as u8) as u64) << 32) | (((((v >> 40) & 0xff) as u8) as u64) << 40)
        | (((((v >> 48) & 0xff) as u8) as u64) << 48) | (((((v >> 56) & 0xff) as u8) as u64) << 56)
        == v) by (bit_vector);
}

/// Decoding one wire byte recovers the 8-bit value it encodes.
pub proof fn lemma_u8_round_trip(v: u8)
    ensures
        u8_of_le(u8_le(v)) == v,
{
}

/// Round trips for the signed scalars: the two's-complement image decodes
/// back to the signed value of the same width.
pub proof fn lemma_i8_round_trip(v: i8)
    ensures
        i8_of_le(i8_le(v)) == v,
{
    assert((v as u8) as i8 == v) by (bit_vector);
}

pub proof fn lemma_i16_round_trip(v: i16)
    ensures
        i16_of_le(i16_le(v)) == v,
{
    lemma_u16_round_trip(v as u16);
    assert((v as u16) as i16 == v) by (bit_vector);
}

pub proof fn lemma_i32_round_trip(v: i32)
    ensures
        i32_of_le(i32_le(v)) == v,
{
    lemma_u32_round_trip(v as u32);
    assert((v as u32) as i32 == v) by (bit_vector);
}

pub proof fn lemma_i64_round_trip(v: i64)
    ensures
        i64_of_le(i64_le(v)) == v,
{
    lemma_u64_round_trip(v as u64);
    assert((v as u64) as i64 == v) by (bit_vector);
}

/// Round trip for a pointer-sized value through its 8-byte image.
pub proof fn lemma_ptr_round_trip(v: usize)
    ensures
        ptr_of_le(ptr_le(v)) == v,
{
    lemma_u64_round_trip(v as u64);
    assert((v as u64) as usize == v) by (bit_vector);
}

} // verus!
