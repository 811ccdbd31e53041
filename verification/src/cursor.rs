//! Bounds-checked sequential byte access over a caller-owned buffer.
//!
//! A cursor owns a byte buffer for the duration of one encode or decode pass
//! and hands it back when released. Writes either copy their whole input at
//! the current position or fail without touching anything; reads copy as many
//! of the requested bytes as remain and report how many that was, so a short
//! read shows up as a shorter count rather than an error.

use vstd::prelude::*;

use crate::wire::{avail_of, overwrite};

verus! {

#[derive(Debug, Copy, Clone, Eq, PartialEq)]
pub enum CursorError {
    /// A write asked for more room than the buffer has left.
    InsufficientBuffer,
    /// Reserved for readers that demand an exact byte count; the cursors here
    /// truncate short reads instead of failing.
    NotEnoughData,
}

/// A bounds-checked read/write position over a byte buffer.
///
/// `data()` is the whole buffer content and `pos()` the current position;
/// every implementation keeps `pos() <= data().len()`. Reads and writes
/// advance the position by exactly the bytes they consumed or produced.
pub trait Cursor: Sized {
    /// The bytes of the underlying buffer.
    spec fn data(&self) -> Seq<u8>;

    /// The current read/write position, never past the end of the buffer.
    spec fn pos(&self) -> nat;

    /// Copies `min(remaining, dest.len())` bytes at the position into the
    /// front of `dest`, advances by that count and returns it; the rest of
    /// `dest` is left as it was. A read past the end is not an error, it is
    /// a shorter count.
    fn read(&mut self, dest: &mut Vec<u8>) -> (r: Result<usize, CursorError>)
        requires
            old(self).pos() <= old(self).data().len(),
        ensures
            final(self).pos() <= final(self).data().len(),
            final(self).data() == old(self).data(),
            ({
                let n = avail_of(old(self).data(), old(self).pos() as int, old(dest)@.len() as int);
                &&& r == Ok::<usize, CursorError>(n as usize)
                &&& final(self).pos() == old(self).pos() + n
                &&& final(dest)@ == old(self).data().subrange(
                    old(self).pos() as int,
                    old(self).pos() + n,
                ) + old(dest)@.skip(n)
            }),
    ;

    /// Copies all of `data` at the position and advances past it, or fails
    /// with `InsufficientBuffer` and changes nothing when `data` does not fit
    /// in the space that remains. No partial write is ever committed.
    fn write(&mut self, data: &[u8]) -> (r: Result<(), CursorError>)
        requires
            old(self).pos() <= old(self).data().len(),
        ensures
            final(self).pos() <= final(self).data().len(),
            if data@.len() <= old(self).data().len() - old(self).pos() {
                &&& r == Ok::<(), CursorError>(())
                &&& final(self).data() == overwrite(old(self).data(), old(self).pos() as int, data@)
                &&& final(self).pos() == old(self).pos() + data@.len()
            } else {
                &&& r == Err::<(), CursorError>(CursorError::InsufficientBuffer)
                &&& final(self).data() == old(self).data()
                &&& final(self).pos() == old(self).pos()
            },
    ;
}

/// A fresh buffer of `n` zero bytes.
pub(crate) fn zero_vec(n: usize) -> (r: Vec<u8>)
    ensures
        r@ == Seq::new(n as nat, |i: int| 0u8),
{
    let mut v: Vec<u8> = Vec::new();
    let mut i: usize = 0;
    while i < n
        invariant
            i <= n,
            v@.len() == i,
            forall|j: int| 0 <= j < i ==> v@[j] == 0u8,
        decreases n - i,
    {
        v.push(0u8);
        i = i + 1;
    }
    proof {
        assert(v@ =~= Seq::new(n as nat, |j: int| 0u8));
    }
    v
}

/// Copies `src` into `dst` starting at `at`, leaving all other bytes alone.
fn copy_into(dst: &mut Vec<u8>, at: usize, src: &[u8])
    requires
        at + src@.len() <= old(dst)@.len(),
    ensures
        final(dst)@ == overwrite(old(dst)@, at as int, src@),
{
    let ghost dst0: Seq<u8> = dst@;
    let dst_len = dst.len();
    let mut i: usize = 0;
    while i < src.len()
        invariant
            i <= src@.len(),
            at + src@.len() <= dst_len,
            dst_len == dst0.len(),
            dst@.len() == dst0.len(),
            forall|j: int| 0 <= j < i ==> dst@[at + j] == src@[j],
            forall|j: int| 0 <= j < dst0.len() && !(at <= j < at + i) ==> dst@[j] == dst0[j],
        decreases src@.len() - i,
    {
        dst[at + i] = src[i];
        i = i + 1;
    }
    proof {
        assert(dst@ =~= overwrite(dst0, at as int, src@));
    }
}

/// Copies `n` bytes of `src` starting at `from` into the front of `dst`,
/// leaving the rest of `dst` alone.
pub(crate) fn copy_prefix(dst: &mut Vec<u8>, src: &[u8], from: usize, n: usize)
    requires
        from + n <= src@.len(),
        n <= old(dst)@.len(),
    ensures
        final(dst)@ == src@.subrange(from as int, from + n) + old(dst)@.skip(n as int),
{
    let ghost dst0: Seq<u8> = dst@;
    let src_len = src.len();
    let mut i: usize = 0;
    while i < n
        invariant
            i <= n,
            from + n <= src_len,
            src_len == src@.len(),
            n <= dst0.len(),
            dst@.len() == dst0.len(),
            forall|j: int| 0 <= j < i ==> dst@[j] == src@[from + j],
            forall|j: int| i <= j < dst0.len() ==> dst@[j] == dst0[j],
        decreases n - i,
    {
        dst[i] = src[from + i];
        i = i + 1;
    }
    proof {
        assert(dst@ =~= src@.subrange(from as int, from + n) + dst0.skip(n as int));
    }
}

/// A cursor that owns its buffer outright; `release` hands the buffer back.
pub struct BufferCursor {
    pub buffer: Vec<u8>,
    pub position: usize,
}

impl BufferCursor {
    /// A fresh cursor over `buffer`, positioned at its start.
    pub fn new(buffer: Vec<u8>) -> (r: Self)
        ensures
            r.data() == buffer@,
            r.pos() == 0,
    {
        Self { buffer, position: 0 }
    }

    /// Gives the buffer back to the caller, consuming the cursor.
    pub fn release(self) -> (r: Vec<u8>)
        ensures
            r@ == self.data(),
    {
        self.buffer
    }

    /// Moves the position back to the start of the buffer.
    pub fn reset(&mut self)
        ensures
            final(self).data() == old(self).data(),
            final(self).pos() == 0,
    {
        self.position = 0;
    }

    /// The current position: how many bytes have been read or written.
    pub fn get_position(&self) -> (r: usize)
        ensures
            r == self.pos(),
    {
        self.position
    }
}

impl Cursor for BufferCursor {
    open spec fn data(&self) -> Seq<u8> {
        self.buffer@
    }

    open spec fn pos(&self) -> nat {
        self.position as nat
    }

    fn read(&mut self, dest: &mut Vec<u8>) -> (r: Result<usize, CursorError>) {
        let remaining = self.buffer.len() - self.position;
        let n = if remaining < dest.len() {
            remaining
        } else {
            dest.len()
        };
        copy_prefix(dest, self.buffer.as_slice(), self.position, n);
        self.position = self.position + n;
        Ok(n)
    }

    fn write(&mut self, data: &[u8]) -> (r: Result<(), CursorError>) {
        let remaining = self.buffer.len() - self.position;
        if remaining < data.len() {
            Err(CursorError::InsufficientBuffer)
        } else {
            copy_into(&mut self.buffer, self.position, data);
            self.position = self.position + data.len();
            Ok(())
        }
    }
}

/// A cursor over a buffer handed in by the caller, with the same semantics as
/// `BufferCursor`; it can start at a caller-chosen position.
pub struct SliceCursor {
    pub buffer: Vec<u8>,
    pub position: usize,
}

impl SliceCursor {
    /// A fresh cursor over `buffer`, positioned at its start.
    pub fn new(buffer: Vec<u8>) -> (r: Self)
        ensures
            r.data() == buffer@,
            r.pos() == 0,
    {
        Self::new_with_position(buffer, 0)
    }

    /// A cursor over `buffer` starting at `position`.
    pub fn new_with_position(buffer: Vec<u8>, position: usize) -> (r: Self)
        requires
            position <= buffer@.len(),
        ensures
            r.data() == buffer@,
            r.pos() == position,
    {
        Self { buffer, position }
    }

    /// Gives the buffer back to the caller, consuming the cursor.
    pub fn release(self) -> (r: Vec<u8>)
        ensures
            r@ == self.data(),
    {
        self.buffer
    }

    /// Moves the position back to the start of the buffer.
    pub fn reset(&mut self)
        ensures
            final(self).data() == old(self).data(),
            final(self).pos() == 0,
    {
        self.position = 0;
    }

    /// The current position: how many bytes have been read or written.
    pub fn get_position(&self) -> (r: usize)
        ensures
            r == self.pos(),
    {
        self.position
    }
}

impl Cursor for SliceCursor {
    open spec fn data(&self) -> Seq<u8> {
        self.buffer@
    }

    open spec fn pos(&self) -> nat {
        self.position as nat
    }

    fn read(&mut self, dest: &mut Vec<u8>) -> (r: Result<usize, CursorError>) {
        let remaining = self.buffer.len() - self.position;
        let n = if remaining < dest.len() {
            remaining
        } else {
            dest.len()
        };
        copy_prefix(dest, self.buffer.as_slice(), self.position, n);
        self.position = self.position + n;
        Ok(n)
    }

    fn write(&mut self, data: &[u8]) -> (r: Result<(), CursorError>) {
        let remaining = self.buffer.len() - self.position;
        if remaining < data.len() {
            Err(CursorError::InsufficientBuffer)
        } else {
            copy_into(&mut self.buffer, self.position, data);
            self.position = self.position + data.len();
            Ok(())
        }
    }
}

} // verus!
