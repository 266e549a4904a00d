use vstd::prelude::*;
use vstd::std_specs::slice::{axiom_spec_slice_iter, into_iter_elts};

verus! {

/// A buffer that keeps the last `capacity` elements pushed into it, in the
/// order they came. Elements live in a vector of up to twice the capacity, so
/// that the window moves by one index on most pushes and the vector is
/// compacted only once every `capacity` pushes.
#[derive(Debug)]
pub struct FixedRingBuffer<T> {
    buf: Vec<T>,
    cap: usize,
    head: usize,
}

impl<T: Copy + Default> View for FixedRingBuffer<T> {
    type V = Seq<T>;

    /// The retained elements, oldest first.
    closed spec fn view(&self) -> Seq<T> {
        self.buf@.subrange(self.head as int, self.buf@.len() as int)
    }
}

impl<T: Copy + Default> FixedRingBuffer<T> {
    pub closed spec fn capacity(&self) -> nat {
        self.cap as nat
    }

    /// The buffer is well formed; it then holds at most `capacity()`
    /// elements (see the `ensures` of `new`, `len` and `push`).
    pub closed spec fn wf(&self) -> bool {
        &&& self.cap > 0
        &&& self.head <= self.buf@.len()
        &&& self.buf@.len() <= 2 * self.cap
        &&& self.buf@.len() - self.head <= self.cap
        &&& self.head > 0 ==> self.buf@.len() - self.head == self.cap
        &&& 2 * self.cap <= usize::MAX
    }

    /// An empty buffer that retains `capacity` elements.
    pub fn new(capacity: usize) -> (r: Self)
        requires
            capacity > 0,
            2 * capacity <= usize::MAX,
        ensures
            r.wf(),
            r@ == Seq::<T>::empty(),
            r.capacity() == capacity,
            r@.len() <= r.capacity(),
    {
        FixedRingBuffer { buf: Vec::new(), cap: capacity, head: 0 }
    }

    /// Number of retained elements.
    pub fn len(&self) -> (r: usize)
        requires
            self.wf(),
        ensures
            r == self@.len(),
            r <= self.capacity(),
    {
        self.buf.len() - self.head
    }

    /// Appends `elem`; once the buffer is full the oldest element leaves.
    pub fn push(&mut self, elem: T)
        requires
            old(self).wf(),
        ensures
            final(self).wf(),
            final(self).capacity() == old(self).capacity(),
            final(self)@.len() <= final(self).capacity(),
            old(self)@.len() < old(self).capacity() ==> final(self)@ == old(self)@.push(elem),
            old(self)@.len() == old(self).capacity() ==> final(self)@ == old(self)@.push(
                elem,
            ).drop_first(),
    {
        let ghost before = self@;
        if self.buf.len() == 2 * self.cap {
            let len = self.buf.len();
            let mut kept: Vec<T> = Vec::new();
            let mut i: usize = self.head + 1;
            while i < len
                invariant
                    len == self.buf@.len(),
                    self.head + 1 <= i <= len,
                    kept@ == self.buf@.subrange(self.head + 1, i as int),
                decreases len - i,
            {
                kept.push(self.buf[i]);
                i += 1;
            }
            assert(before.drop_first() =~= kept@);
            self.buf = kept;
            self.head = 0;
            self.buf.push(elem);
            assert(self@ =~= before.push(elem).drop_first());
        } else {
            self.buf.push(elem);
            if self.buf.len() - self.head > self.cap {
                self.head = self.head + 1;
                assert(self@ =~= before.push(elem).drop_first());
            } else {
                assert(self@ =~= before.push(elem));
            }
        }
    }

    /// The retained elements, oldest first.
    pub fn as_slice(&self) -> (r: &[T])
        requires
            self.wf(),
        ensures
            r@ == self@,
    {
        &self.buf.as_slice()[self.head..self.buf.len()]
    }

    /// Iterates over the retained elements, oldest first.
    pub fn iter(&self) -> (r: std::slice::Iter<'_, T>)
        requires
            self.wf(),
        ensures
            into_iter_elts(r) == self@,
    {
        broadcast use axiom_spec_slice_iter;

        self.as_slice().iter()
    }
}

} // verus!
