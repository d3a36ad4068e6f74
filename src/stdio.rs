//! The stdio handle and a byte target for formatted text.

use crate::cursor::{fit, overwrite};
use crate::error::{Error, ErrorKind};
use crate::storage::{SliceStorage, SliceStorageMut};
use vstd::prelude::*;
use vstd::string::StringSliceAdditionalSpecFns;

verus! {

/// A handle to the board's standard input and output.
///
/// The byte transfers themselves are made by the hardware layer, each under
/// its own lock; this type only stands for the right to make them.
pub struct Stdio {
    _private: (),
}

impl Stdio {
    /// Creates a new stdio handle.
    pub fn new() -> (r: Stdio) {
        Stdio { _private: () }
    }
}

/// A target for formatted text over byte storage: text is written from the
/// start on and silently cut off where the storage ends.
pub struct FmtTarget<T> {
    /// The underlying storage.
    buf: T,
    /// How many bytes have been written.
    pos: usize,
}

impl<T> FmtTarget<T> {
    /// The underlying storage.
    pub closed spec fn storage(&self) -> T {
        self.buf
    }

    /// How many bytes have been written.
    pub closed spec fn position(&self) -> nat {
        self.pos as nat
    }

    /// Creates a target that writes into `buf` from its start on.
    pub fn new(buf: T) -> (r: Self)
        ensures
            r.storage() == buf,
            r.position() == 0,
    {
        FmtTarget { buf, pos: 0 }
    }
}

impl<T: SliceStorage<u8>> FmtTarget<T> {
    /// Well-formedness: the written part lies inside the storage.
    pub open spec fn wf(&self) -> bool {
        self.position() <= self.storage().elements().len()
    }

    /// The part that has been written.
    pub fn written(&self) -> (r: &[u8])
        requires
            self.wf(),
        ensures
            r@ == self.storage().elements().subrange(0, self.position() as int),
    {
        let slice = self.buf.as_slice();
        let (head, _) = slice.split_at(self.pos);
        head
    }
}

/// Copies `bytes` into `slice` from `pos` on, stopping at the end of the
/// slice; returns the position after the last byte copied.
fn copy_from(slice: &mut [u8], pos: usize, bytes: &[u8]) -> (r: usize)
    requires
        pos <= old(slice)@.len(),
    ensures
        final(slice)@ == overwrite(old(slice)@, pos as nat, bytes@),
        r == pos + fit(old(slice)@.len(), pos as nat, bytes@.len()),
{
    let ghost e = slice@;
    let n = slice.len();
    let mut i: usize = 0;
    while i < bytes.len()
        invariant
            0 <= i <= bytes@.len(),
            pos + i <= e.len(),
            e == old(slice)@,
            slice@.len() == e.len(),
            n == e.len(),
            i == fit(e.len(), pos as nat, i as nat),
            slice@ == overwrite(e, pos as nat, bytes@.subrange(0, i as int)),
        decreases bytes@.len() - i,
    {
        if pos + i >= n {
            proof {
                assert(overwrite(e, pos as nat, bytes@) =~= overwrite(e, pos as nat, bytes@.subrange(0, i as int)));
            }
            return pos + i;
        }
        slice[pos + i] = bytes[i];
        proof {
            assert(slice@ =~= overwrite(e, pos as nat, bytes@.subrange(0, i + 1)));
        }
        i = i + 1;
    }
    proof {
        assert(bytes@.subrange(0, i as int) =~= bytes@);
    }
    pos + i
}

impl<T: SliceStorageMut<u8>> FmtTarget<T> {
    /// Writes the UTF-8 bytes of `s` after what has been written, stopping at
    /// the first that does not fit; the bytes written before it stay.
    pub fn write_str(&mut self, s: &str) -> (r: Result<(), Error>)
        requires
            old(self).wf(),
        ensures
            final(self).wf(),
            ({
                let e = old(self).storage().elements();
                let p = old(self).position();
                let b = s.spec_bytes();
                &&& final(self).storage().elements() == overwrite(e, p, b)
                &&& final(self).position() == p + fit(e.len(), p, b.len())
                &&& (r is Ok <==> fit(e.len(), p, b.len()) == b.len())
                &&& (r is Err ==> r->Err_0.kind == ErrorKind::OutOfRange)
            }),
    {
        let bytes = s.as_bytes();
        let slice = self.buf.as_slice_mut();
        let end = copy_from(slice, self.pos, bytes);
        let complete = end - self.pos == bytes.len();
        self.pos = end;
        if complete {
            Ok(())
        } else {
            Err(Error::new(
                ErrorKind::OutOfRange,
                "Cannot write beyond end of buffer",
                "src/stdio.rs",
                142,
            ))
        }
    }
}

/// Writing a message into a fresh target never faults and keeps the
/// storage's length; the written part is the message cut off at the
/// storage's length, and the write reports failure exactly when something
/// was cut off.
pub proof fn lemma_fresh_write_truncates(e: Seq<u8>, b: Seq<u8>)
    ensures
        ({
            let k = fit(e.len(), 0, b.len());
            &&& k == if b.len() <= e.len() {
                b.len()
            } else {
                e.len()
            }
            &&& overwrite(e, 0, b).len() == e.len()
            &&& overwrite(e, 0, b).subrange(0, k as int) == b.subrange(0, k as int)
            &&& (k == b.len() <==> b.len() <= e.len())
        }),
{
    let k = fit(e.len(), 0, b.len());
    assert(overwrite(e, 0, b).subrange(0, k as int) =~= b.subrange(0, k as int));
}

} // verus!
