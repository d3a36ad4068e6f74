//! Storage that can be viewed as a slice of elements.
//!
//! A cursor works over any such storage: a borrowed slice, an owned array,
//! a vector or a fixed-capacity buffer.

use vstd::prelude::*;

verus! {

/// Storage whose live elements can be read as one slice.
pub trait SliceStorage<T> {
    /// The live elements, in storage order.
    spec fn elements(&self) -> Seq<T>;

    /// The live elements as a slice.
    fn as_slice(&self) -> (r: &[T])
        ensures
            r@ == self.elements(),
    ;
}

/// Storage whose live elements can be written through one slice.
pub trait SliceStorageMut<T>: SliceStorage<T> {
    /// The live elements as a mutable slice; what is written through it
    /// becomes the storage's contents.
    fn as_slice_mut(&mut self) -> (r: &mut [T])
        ensures
            r@ == old(self).elements(),
            final(self).elements() == final(r)@,
    ;
}

impl<'a, T> SliceStorage<T> for &'a [T] {
    open spec fn elements(&self) -> Seq<T> {
        (**self)@
    }

    fn as_slice(&self) -> (r: &[T]) {
        *self
    }
}

impl<'a, T> SliceStorage<T> for &'a mut [T] {
    open spec fn elements(&self) -> Seq<T> {
        (**self)@
    }

    fn as_slice(&self) -> (r: &[T]) {
        &**self
    }
}

impl<'a, T> SliceStorageMut<T> for &'a mut [T] {
    fn as_slice_mut(&mut self) -> (r: &mut [T]) {
        &mut **self
    }
}

impl<T, const N: usize> SliceStorage<T> for [T; N] {
    open spec fn elements(&self) -> Seq<T> {
        self@
    }

    fn as_slice(&self) -> (r: &[T]) {
        self.as_slice()
    }
}

impl<T, const N: usize> SliceStorageMut<T> for [T; N] {
    fn as_slice_mut(&mut self) -> (r: &mut [T]) {
        self
    }
}

impl<T> SliceStorage<T> for Vec<T> {
    open spec fn elements(&self) -> Seq<T> {
        self@
    }

    fn as_slice(&self) -> (r: &[T]) {
        self.as_slice()
    }
}

impl<T> SliceStorageMut<T> for Vec<T> {
    fn as_slice_mut(&mut self) -> (r: &mut [T]) {
        self.as_mut_slice()
    }
}

} // verus!
