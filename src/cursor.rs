//! A position-tracking read/write head over slice-like storage.

use crate::error::{Error, ErrorKind};
use crate::storage::{SliceStorage, SliceStorageMut};
use core::marker::PhantomData;
use vstd::prelude::*;
use vstd::string::StringSliceAdditionalSpecFns;

verus! {

/// The position `pos` clamped to a storage of `len` elements.
pub open spec fn clamp(pos: nat, len: nat) -> nat {
    if pos <= len {
        pos
    } else {
        len
    }
}

/// How many of `n` elements fit into a storage of `len` elements from
/// position `pos` on.
pub open spec fn fit(len: nat, pos: nat, n: nat) -> nat {
    if pos >= len {
        0
    } else if n <= len - pos {
        n
    } else {
        (len - pos) as nat
    }
}

/// The storage `e` after the elements `b` are written into it one by one
/// from position `pos` on, stopping at the end of the storage.
pub open spec fn overwrite<T>(e: Seq<T>, pos: nat, b: Seq<T>) -> Seq<T> {
    let k = fit(e.len(), pos, b.len());
    if pos >= e.len() {
        e
    } else {
        e.subrange(0, pos as int) + b.subrange(0, k as int) + e.subrange((pos + k) as int, e.len() as int)
    }
}

/// Writing one more element of `b` after its first `i` have been written
/// stores it at position `pos + i`, where that position is inside the storage.
proof fn lemma_overwrite_step<T>(e: Seq<T>, pos: nat, b: Seq<T>, i: nat)
    requires
        i < b.len(),
        pos + i < e.len(),
        fit(e.len(), pos, i) == i,
    ensures
        fit(e.len(), pos, i + 1) == i + 1,
        overwrite(e, pos, b.subrange(0, i as int)).update((pos + i) as int, b[i as int]) == overwrite(
            e,
            pos,
            b.subrange(0, (i + 1) as int),
        ),
{
    let lhs = overwrite(e, pos, b.subrange(0, i as int)).update((pos + i) as int, b[i as int]);
    let rhs = overwrite(e, pos, b.subrange(0, (i + 1) as int));
    assert(lhs =~= rhs);
}

/// Once the next position lies outside the storage, writing the rest of `b`
/// changes nothing more.
proof fn lemma_overwrite_stop<T>(e: Seq<T>, pos: nat, b: Seq<T>, i: nat)
    requires
        i <= b.len(),
        pos + i >= e.len(),
        fit(e.len(), pos, i) == i,
    ensures
        fit(e.len(), pos, b.len()) == i,
        overwrite(e, pos, b) == overwrite(e, pos, b.subrange(0, i as int)),
{
    assert(overwrite(e, pos, b) =~= overwrite(e, pos, b.subrange(0, i as int)));
}

/// A cursor: storage `B` of elements `T` and a position in it.
///
/// The position may lie past the end of the storage; reads and writes there
/// fail, and split views clamp it to the storage's length.
pub struct Cursor<B, T> {
    /// The underlying storage.
    buf: B,
    /// The position.
    pos: usize,
    /// Captures the element type.
    _elements: PhantomData<T>,
}

impl<B, T> Cursor<B, T> {
    /// The underlying storage.
    pub closed spec fn storage(&self) -> B {
        self.buf
    }

    /// The position.
    pub closed spec fn position(&self) -> nat {
        self.pos as nat
    }

    /// Creates a cursor at position 0 over `buf`.
    pub fn new(buf: B) -> (r: Self)
        ensures
            r.storage() == buf,
            r.position() == 0,
    {
        Cursor { buf, pos: 0, _elements: PhantomData }
    }

    /// The position.
    pub fn pos(&self) -> (r: usize)
        ensures
            r == self.position(),
    {
        self.pos
    }

    /// Moves to `pos`, which may lie past the end of the storage.
    pub fn seek(&mut self, pos: usize)
        ensures
            final(self).storage() == old(self).storage(),
            final(self).position() == pos,
    {
        self.pos = pos;
    }

    /// Gives up the cursor, returning the storage and the final position.
    pub fn into_inner(self) -> (r: (B, usize))
        ensures
            r.0 == self.storage(),
            r.1 == self.position(),
    {
        (self.buf, self.pos)
    }
}

impl<B: SliceStorage<T>, T> Cursor<B, T> {
    /// Reads the element at the position and advances by one; fails, and
    /// leaves the cursor as it was, where the position is no index of the storage.
    pub fn read_one(&mut self) -> (r: Result<&T, Error>)
        ensures
            final(self).storage() == old(self).storage(),
            old(self).position() < old(self).storage().elements().len() <==> r is Ok,
            match r {
                Ok(v) => *v == old(self).storage().elements()[old(self).position() as int]
                    && final(self).position() == old(self).position() + 1,
                Err(e) => final(self).position() == old(self).position() && e.kind
                    == ErrorKind::OutOfRange,
            },
    {
        let slice = self.buf.as_slice();
        if self.pos >= slice.len() {
            return Err(Error::new(
                ErrorKind::OutOfRange,
                "Cannot read beyond end of buffer",
                "src/cursor.rs",
                153,
            ));
        }
        let slot = &slice[self.pos];
        self.pos = self.pos + 1;
        Ok(slot)
    }

    /// The underlying storage as a slice.
    pub fn as_slice(&self) -> (r: &[T])
        ensures
            r@ == self.storage().elements(),
    {
        self.buf.as_slice()
    }

    /// The storage split at the position, clamped to the storage's length.
    pub fn as_parts(&self) -> (r: (&[T], &[T]))
        ensures
            ({
                let e = self.storage().elements();
                let k = clamp(self.position(), e.len());
                r.0@ == e.subrange(0, k as int) && r.1@ == e.subrange(k as int, e.len() as int)
            }),
    {
        let slice = self.buf.as_slice();
        let pos = if self.pos <= slice.len() {
            self.pos
        } else {
            slice.len()
        };
        slice.split_at(pos)
    }
}

impl<B: SliceStorageMut<T>, T> Cursor<B, T> {
    /// Writes `value` at the position and advances by one; fails, and leaves
    /// the cursor and its storage as they were, where the position is no
    /// index of the storage.
    pub fn write_one(&mut self, value: T) -> (r: Result<(), Error>)
        ensures
            old(self).position() < old(self).storage().elements().len() <==> r is Ok,
            r is Ok ==> final(self).storage().elements() == old(self).storage().elements().update(
                old(self).position() as int,
                value,
            ) && final(self).position() == old(self).position() + 1,
            r is Err ==> final(self).storage().elements() == old(self).storage().elements()
                && final(self).position() == old(self).position() && r->Err_0.kind
                == ErrorKind::OutOfRange,
    {
        let slice = self.buf.as_slice_mut();
        if self.pos >= slice.len() {
            return Err(Error::new(
                ErrorKind::OutOfRange,
                "Cannot write beyond end of buffer",
                "src/cursor.rs",
                209,
            ));
        }
        slice[self.pos] = value;
        self.pos = self.pos + 1;
        Ok(())
    }

    /// The underlying storage as a mutable slice.
    pub fn as_slice_mut(&mut self) -> (r: &mut [T])
        ensures
            r@ == old(self).storage().elements(),
            final(self).storage().elements() == final(r)@,
            final(self).position() == old(self).position(),
    {
        self.buf.as_slice_mut()
    }

    /// The storage split at the position, clamped to the storage's length,
    /// as two mutable slices.
    pub fn as_parts_mut(&mut self) -> (r: (&mut [T], &mut [T]))
        ensures
            ({
                let e = old(self).storage().elements();
                let k = clamp(old(self).position(), e.len());
                r.0@ == e.subrange(0, k as int) && r.1@ == e.subrange(k as int, e.len() as int)
            }),
            final(self).storage().elements() == final(r.0)@ + final(r.1)@,
            final(self).position() == old(self).position(),
    {
        let slice = self.buf.as_slice_mut();
        let pos = if self.pos <= slice.len() {
            self.pos
        } else {
            slice.len()
        };
        slice.split_at_mut(pos)
    }
}

impl<B: SliceStorageMut<u8>> Cursor<B, u8> {
    /// Writes the UTF-8 bytes of `s` one by one as `write_one` does, stopping
    /// at the first that does not fit; the bytes written before it stay.
    pub fn write_str(&mut self, s: &str) -> (r: Result<(), Error>)
        ensures
            ({
                let e = old(self).storage().elements();
                let p = old(self).position();
                let b = s.spec_bytes();
                &&& final(self).storage().elements() == overwrite(e, p, b)
                &&& final(self).position() == p + fit(e.len(), p, b.len())
                &&& (r is Ok <==> fit(e.len(), p, b.len()) == b.len())
                &&& (r is Err ==> r->Err_0.kind == ErrorKind::OutOfRange)
            }),
    {
        let bytes = s.as_bytes();
        let ghost e = self.storage().elements();
        let ghost p = self.position();
        let mut i: usize = 0;
        while i < bytes.len()
            invariant
                0 <= i <= bytes@.len(),
                e == old(self).storage().elements(),
                p == old(self).position(),
                bytes@ == s.spec_bytes(),
                i == fit(e.len(), p, i as nat),
                self.position() == p + i,
                self.storage().elements() == overwrite(e, p, bytes@.subrange(0, i as int)),
                self.storage().elements().len() == e.len(),
            decreases bytes@.len() - i,
        {
            proof {
                if p + i < e.len() {
                    lemma_overwrite_step(e, p, bytes@, i as nat);
                } else {
                    lemma_overwrite_stop(e, p, bytes@, i as nat);
                }
            }
            let res = self.write_one(bytes[i]);
            if res.is_err() {
                return res;
            }
            i = i + 1;
        }
        proof {
            assert(bytes@.subrange(0, i as int) =~= bytes@);
        }
        Ok(())
    }
}

} // verus!
