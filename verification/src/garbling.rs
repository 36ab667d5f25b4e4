//! Pieces of authenticated garbling: stateful iteration over preprocessed
//! values, indexed wires and the garbler's output phase.
use vstd::prelude::*;

verus! {

/// Wraps a [`Vec`] to allow stateful iteration that can be reset or moved
/// to a given index.
pub struct VecWrapper<T> {
    vec: Vec<T>,
    index: usize,
}

impl<T: Copy> VecWrapper<T> {
    /// The wrapped values.
    pub closed spec fn values(&self) -> Seq<T> {
        self.vec@
    }

    /// The index of the next value [`VecWrapper::next`] hands out.
    pub closed spec fn spec_index(&self) -> usize {
        self.index
    }

    /// Wrap `vec`, starting at index 0.
    pub fn new(vec: Vec<T>) -> (w: Self)
        ensures
            w.values() == vec@,
            w.spec_index() == 0,
    {
        VecWrapper { vec, index: 0 }
    }

    /// The value at the current index; the index moves to the next value.
    pub fn next(&mut self) -> (value: T)
        requires
            old(self).spec_index() < old(self).values().len(),
        ensures
            value == old(self).values()[old(self).spec_index() as int],
            final(self).spec_index() == old(self).spec_index() + 1,
            final(self).values() == old(self).values(),
    {
        let len = self.vec.len();
        let value = self.vec[self.index];
        assert(self.index < len);
        self.index = self.index + 1;
        value
    }

    /// The number of wrapped values.
    pub fn len(&self) -> (n: usize)
        ensures
            n == self.values().len(),
    {
        self.vec.len()
    }

    /// Go back to index 0.
    pub fn reset(&mut self)
        ensures
            final(self).spec_index() == 0,
            final(self).values() == old(self).values(),
    {
        self.index = 0;
    }

    /// Move to `index`.
    pub fn set_index(&mut self, index: usize)
        ensures
            final(self).spec_index() == index,
            final(self).values() == old(self).values(),
    {
        self.index = index;
    }
}

/// A garbled-circuit wire which has an index.
pub trait IndexedWire {
    /// The index of the wire.
    fn to_index(&self) -> usize;

    /// Set the index of the wire.
    fn set_index(&mut self, index: usize);
}

/// The garbler's output phase.
pub struct GarblerOutput {}

impl GarblerOutput {
    /// A new output phase.
    pub fn new() -> (o: Self) {
        GarblerOutput {  }
    }
}

/// Sending a stop signal to a functionality running in another thread.
pub trait SvoleStopSignal {
    /// Send a stop signal.
    fn send_stop_signal(&mut self) -> crate::error::Result<()>;
}

} // verus!
