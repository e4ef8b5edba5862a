//! A short buffer of slot indices that stays on the stack while it is small.

use vstd::prelude::*;
use smallvec::SmallVec;

verus! {

/// A growable list of slot indices, kept in a `SmallVec` with room for four
/// before it moves to the heap.
#[verifier::external_body]
pub struct SlotBuffer {
    inner: SmallVec<[usize; 4]>,
}

/// The indices that a buffer holds, in the order in which they were pushed.
pub uninterp spec fn buffered(buffer: SlotBuffer) -> Seq<usize>;

impl View for SlotBuffer {
    type V = Seq<usize>;

    open spec fn view(&self) -> Seq<usize> {
        buffered(*self)
    }
}

impl SlotBuffer {
    /// `SmallVec::new`: the new buffer holds nothing.
    #[verifier::external_body]
    pub(crate) fn new() -> (buffer: SlotBuffer)
        ensures
            buffered(buffer) == Seq::<usize>::empty(),
    {
        SlotBuffer { inner: SmallVec::new() }
    }

    /// `SmallVec::push`: `index` is appended behind what the buffer held.
    #[verifier::external_body]
    pub(crate) fn push(&mut self, index: usize)
        ensures
            buffered(*final(self)) == buffered(*old(self)).push(index),
    {
        self.inner.push(index)
    }

    /// `SmallVec::len`: the number of indices held.
    #[verifier::external_body]
    pub(crate) fn len(&self) -> (n: usize)
        ensures
            n == buffered(*self).len(),
    {
        self.inner.len()
    }

    /// `SmallVec::is_empty`: whether nothing is held.
    #[verifier::external_body]
    pub(crate) fn is_empty(&self) -> (r: bool)
        ensures
            r == (buffered(*self).len() == 0),
    {
        self.inner.is_empty()
    }

    /// `SmallVec`'s `Index::index` with a position: the index held at `at`,
    /// which must be one of the positions in use.
    #[verifier::external_body]
    pub(crate) fn get(&self, at: usize) -> (index: usize)
        requires
            at < buffered(*self).len(),
        ensures
            index == buffered(*self)[at as int],
    {
        self.inner[at]
    }
}

} // verus!
