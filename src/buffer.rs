//! A fixed-capacity buffer that grows up to `SIZE` elements and never beyond.

use crate::cursor::fit;
use crate::error::{Error, ErrorKind};
use crate::storage::{SliceStorage, SliceStorageMut};
use vstd::prelude::*;
use vstd::string::StringSliceAdditionalSpecFns;

verus! {

/// The live elements after pushing `v` onto `s` in a buffer of capacity
/// `cap`, and whether the push is accepted: it is exactly when `s` is not full.
pub open spec fn push_outcome<T>(s: Seq<T>, cap: nat, v: T) -> (Seq<T>, bool) {
    if s.len() < cap {
        (s.push(v), true)
    } else {
        (s, false)
    }
}

/// The live elements after popping from `s`, and the element handed out:
/// the last one, and none exactly when `s` is empty.
pub open spec fn pop_outcome<T>(s: Seq<T>) -> (Seq<T>, Option<T>) {
    if s.len() > 0 {
        (s.drop_last(), Some(s.last()))
    } else {
        (s, None)
    }
}

/// A buffer of at most `SIZE` elements.
///
/// Only the live prefix is ever reachable: no method exposes a slot past
/// `len()`. Popping moves an element out to the caller; clearing drops
/// every live element once, in index order, and so does dropping the buffer.
/// Room for `SIZE` elements is reserved when the buffer is created, and
/// pushes never grow it.
pub struct Buffer<T, const SIZE: usize> {
    /// The live elements, in index order.
    backing: Vec<T>,
}

impl<T, const SIZE: usize> View for Buffer<T, SIZE> {
    type V = Seq<T>;

    closed spec fn view(&self) -> Seq<T> {
        self.backing@
    }
}

impl<T, const SIZE: usize> Buffer<T, SIZE> {
    /// Well-formedness: the capacity is positive and the live prefix fits in it.
    pub open spec fn wf(&self) -> bool {
        &&& 0 < SIZE
        &&& self@.len() <= SIZE
    }

    /// Creates an empty buffer. A capacity of zero is not allowed.
    pub fn new() -> (r: Self)
        requires
            SIZE != 0,
        ensures
            r.wf(),
            r@ == Seq::<T>::empty(),
    {
        Buffer { backing: Vec::with_capacity(SIZE) }
    }

    /// The number of live elements.
    pub fn len(&self) -> (r: usize)
        ensures
            r == self@.len(),
            self.wf() ==> r <= SIZE,
    {
        self.backing.len()
    }

    /// Whether the buffer holds no element.
    pub fn is_empty(&self) -> (r: bool)
        ensures
            r == (self@.len() == 0),
    {
        self.backing.len() == 0
    }

    /// Whether the buffer holds `SIZE` elements.
    pub fn is_full(&self) -> (r: bool)
        ensures
            r == (self@.len() >= SIZE),
            self.wf() ==> (r == (self@.len() == SIZE)),
    {
        self.backing.len() >= SIZE
    }

    /// Appends `element` after the live elements; fails on a full buffer,
    /// which is then left as it was.
    pub fn push(&mut self, element: T) -> (r: Result<(), Error>)
        ensures
            old(self).wf() ==> final(self).wf(),
            (final(self)@, r is Ok) == push_outcome(old(self)@, SIZE as nat, element),
            r is Err ==> r->Err_0.kind == ErrorKind::CapacityExceeded,
    {
        if self.is_full() {
            return Err(Error::new(
                ErrorKind::CapacityExceeded,
                "Cannot exceed maximum buffer capacity",
                "src/buffer.rs",
                104,
            ));
        }
        self.backing.push(element);
        Ok(())
    }

    /// Removes the last live element and hands it to the caller; fails on an
    /// empty buffer, which is then left as it was.
    pub fn pop(&mut self) -> (r: Result<T, Error>)
        ensures
            old(self).wf() ==> final(self).wf(),
            final(self)@ == pop_outcome(old(self)@).0,
            match r {
                Ok(v) => pop_outcome(old(self)@).1 == Some(v),
                Err(e) => pop_outcome(old(self)@).1 is None && e.kind == ErrorKind::Underflow,
            },
    {
        match self.backing.pop() {
            Some(element) => Ok(element),
            None => Err(Error::new(
                ErrorKind::Underflow,
                "Cannot remove element from empty buffer",
                "src/buffer.rs",
                128,
            )),
        }
    }

    /// Drops every live element, in index order, and leaves the buffer empty.
    pub fn clear(&mut self)
        ensures
            old(self).wf() ==> final(self).wf(),
            final(self)@ == Seq::<T>::empty(),
    {
        self.backing.clear();
    }

    /// The live elements as a slice.
    pub fn as_slice(&self) -> (r: &[T])
        ensures
            r@ == self@,
    {
        self.backing.as_slice()
    }

    /// The live elements as a mutable slice.
    ///
    /// The slice cannot change how many elements are live, but Verus does not
    /// carry a slice's length through a mutable borrow: a caller that needs
    /// `wf` afterwards can test `len() <= SIZE`.
    pub fn as_slice_mut(&mut self) -> (r: &mut [T])
        ensures
            r@ == old(self)@,
            final(self)@ == final(r)@,
    {
        self.backing.as_mut_slice()
    }
}

impl<const SIZE: usize> Buffer<u8, SIZE> {
    /// Pushes the UTF-8 bytes of `s` one by one, stopping at the first that
    /// does not fit; the bytes pushed before it stay.
    pub fn write_str(&mut self, s: &str) -> (r: Result<(), Error>)
        ensures
            old(self).wf() ==> final(self).wf(),
            ({
                let k = fit(SIZE as nat, old(self)@.len(), s.spec_bytes().len());
                &&& final(self)@ == old(self)@ + s.spec_bytes().subrange(0, k as int)
                &&& (r is Ok <==> k == s.spec_bytes().len())
                &&& (r is Err ==> r->Err_0.kind == ErrorKind::CapacityExceeded)
            }),
    {
        let bytes = s.as_bytes();
        let ghost start = self@;
        let mut i: usize = 0;
        while i < bytes.len()
            invariant
                0 <= i <= bytes@.len(),
                bytes@ == s.spec_bytes(),
                start == old(self)@,
                i == fit(SIZE as nat, start.len(), i as nat),
                self@ == start + bytes@.subrange(0, i as int),
                old(self).wf() ==> self.wf(),
            decreases bytes@.len() - i,
        {
            let res = self.push(bytes[i]);
            if res.is_err() {
                return res;
            }
            proof {
                assert(bytes@.subrange(0, i + 1) =~= bytes@.subrange(0, i as int).push(bytes@[i as int]));
            }
            i = i + 1;
        }
        proof {
            assert(bytes@.subrange(0, i as int) =~= bytes@);
        }
        Ok(())
    }
}

/// One call on a buffer.
pub enum BufferOp<T> {
    /// A push of the value.
    Push(T),
    /// A pop.
    Pop,
}

/// The result of a sequence of calls on a buffer of capacity `cap` that holds
/// `s`: the live elements afterwards, how many pushes were accepted, and the
/// elements the accepted pops handed out, in order.
pub open spec fn run_ops<T>(s: Seq<T>, cap: nat, ops: Seq<BufferOp<T>>) -> (Seq<T>, nat, Seq<T>)
    decreases ops.len(),
{
    if ops.len() == 0 {
        (s, 0, Seq::empty())
    } else {
        match ops[0] {
            BufferOp::Push(v) => {
                let (t, accepted) = push_outcome(s, cap, v);
                let rest = run_ops(t, cap, ops.drop_first());
                (rest.0, if accepted { rest.1 + 1 } else { rest.1 }, rest.2)
            },
            BufferOp::Pop => {
                let (t, out) = pop_outcome(s);
                let rest = run_ops(t, cap, ops.drop_first());
                (
                    rest.0,
                    rest.1,
                    match out {
                        Some(v) => seq![v] + rest.2,
                        None => rest.2,
                    },
                )
            },
        }
    }
}

/// A push of each of `vs`, in order.
pub open spec fn pushes<T>(vs: Seq<T>) -> Seq<BufferOp<T>> {
    Seq::new(vs.len(), |i: int| BufferOp::Push(vs[i]))
}

/// `n` pops.
pub open spec fn pops<T>(n: nat) -> Seq<BufferOp<T>> {
    Seq::new(n, |i: int| BufferOp::Pop)
}

/// After any sequence of pushes and pops, the number of live elements is
/// the number it started with, plus the accepted pushes, minus the accepted
/// pops; and it never exceeds the capacity. (Each single push is refused
/// exactly on a full buffer and each pop exactly on an empty one: see
/// `push_outcome` and `pop_outcome`.)
pub proof fn lemma_len_counts<T>(s: Seq<T>, cap: nat, ops: Seq<BufferOp<T>>)
    requires
        s.len() <= cap,
    ensures
        ({
            let (t, pushed, popped) = run_ops(s, cap, ops);
            &&& t.len() + popped.len() == s.len() + pushed
            &&& t.len() <= cap
        }),
    decreases ops.len(),
{
    if ops.len() > 0 {
        match ops[0] {
            BufferOp::Push(v) => lemma_len_counts(push_outcome(s, cap, v).0, cap, ops.drop_first()),
            BufferOp::Pop => lemma_len_counts(pop_outcome(s).0, cap, ops.drop_first()),
        }
    }
}

/// Running two sequences of calls one after the other is running their
/// concatenation.
proof fn lemma_run_concat<T>(s: Seq<T>, cap: nat, a: Seq<BufferOp<T>>, b: Seq<BufferOp<T>>)
    ensures
        ({
            let first = run_ops(s, cap, a);
            let second = run_ops(first.0, cap, b);
            run_ops(s, cap, a + b) == (second.0, first.1 + second.1, first.2 + second.2)
        }),
    decreases a.len(),
{
    if a.len() == 0 {
        assert(a + b =~= b);
        let second = run_ops(s, cap, b);
        assert(Seq::<T>::empty() + second.2 =~= second.2);
    } else {
        assert((a + b).drop_first() =~= a.drop_first() + b);
        assert((a + b)[0] == a[0]);
        match a[0] {
            BufferOp::Push(v) => {
                lemma_run_concat(push_outcome(s, cap, v).0, cap, a.drop_first(), b);
            },
            BufferOp::Pop => {
                let (t, out) = pop_outcome(s);
                lemma_run_concat(t, cap, a.drop_first(), b);
                let first = run_ops(t, cap, a.drop_first());
                let second = run_ops(first.0, cap, b);
                match out {
                    Some(v) => {
                        assert(seq![v] + (first.2 + second.2) =~= (seq![v] + first.2) + second.2);
                    },
                    None => {},
                }
            },
        }
    }
}

/// Pushing `vs` where they fit accepts every push and appends them.
proof fn lemma_push_all<T>(s: Seq<T>, cap: nat, vs: Seq<T>)
    requires
        s.len() + vs.len() <= cap,
    ensures
        run_ops(s, cap, pushes(vs)) == (s + vs, vs.len(), Seq::<T>::empty()),
    decreases vs.len(),
{
    if vs.len() == 0 {
        assert(s + vs =~= s);
    } else {
        assert(pushes(vs).drop_first() =~= pushes(vs.drop_first()));
        lemma_push_all(s.push(vs[0]), cap, vs.drop_first());
        assert(s.push(vs[0]) + vs.drop_first() =~= s + vs);
    }
}

/// Popping as many times as `vs` has elements, from `s + vs`, hands out
/// `vs` last first and leaves `s`.
proof fn lemma_pop_all<T>(s: Seq<T>, cap: nat, vs: Seq<T>)
    ensures
        run_ops(s + vs, cap, pops(vs.len())) == (s, 0nat, vs.reverse()),
    decreases vs.len(),
{
    if vs.len() == 0 {
        assert(s + vs =~= s);
        assert(vs.reverse() =~= Seq::<T>::empty());
    } else {
        let rest = vs.drop_last();
        assert(pops::<T>(vs.len()).drop_first() =~= pops::<T>(rest.len()));
        assert((s + vs).drop_last() =~= s + rest);
        assert((s + vs).last() == vs.last());
        lemma_pop_all(s, cap, rest);
        assert(seq![vs.last()] + rest.reverse() =~= vs.reverse());
    }
}

/// Pushing `k` values that fit and then popping `k` times hands the values
/// back last first, each equal to what was pushed, and leaves the buffer as
/// it was.
pub proof fn lemma_push_pop_round_trip<T>(s: Seq<T>, cap: nat, vs: Seq<T>)
    requires
        s.len() + vs.len() <= cap,
    ensures
        run_ops(s, cap, pushes(vs) + pops(vs.len())) == (s, vs.len(), vs.reverse()),
{
    lemma_run_concat(s, cap, pushes(vs), pops(vs.len()));
    lemma_push_all(s, cap, vs);
    lemma_pop_all(s, cap, vs);
    assert(Seq::<T>::empty() + vs.reverse() =~= vs.reverse());
}

/// After a clear, pushes are accepted again up to the capacity.
pub proof fn lemma_refill_after_clear<T>(cap: nat, vs: Seq<T>)
    requires
        vs.len() <= cap,
    ensures
        run_ops(Seq::<T>::empty(), cap, pushes(vs)) == (vs, vs.len(), Seq::<T>::empty()),
{
    lemma_push_all(Seq::<T>::empty(), cap, vs);
    assert(Seq::<T>::empty() + vs =~= vs);
}

impl<T, const SIZE: usize> SliceStorage<T> for Buffer<T, SIZE> {
    open spec fn elements(&self) -> Seq<T> {
        self@
    }

    fn as_slice(&self) -> (r: &[T]) {
        Buffer::as_slice(self)
    }
}

impl<T, const SIZE: usize> SliceStorageMut<T> for Buffer<T, SIZE> {
    fn as_slice_mut(&mut self) -> (r: &mut [T]) {
        Buffer::as_slice_mut(self)
    }
}

} // verus!
