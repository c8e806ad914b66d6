//! The dynamic array: an owned buffer plus the count of occupied slots, with
//! the element-manipulation operations, and the consuming iterator.

use vstd::prelude::*;
use crate::raw_vec::RawVec;
use crate::raw_vec::doubled;

verus! {

/// Capacity after an append or an insert: doubled exactly when the container
/// was full, unchanged otherwise.
pub open spec fn grown_cap(len: nat, cap: nat) -> nat {
    if len == cap {
        doubled(cap)
    } else {
        cap
    }
}

/// A growable, contiguous array: slots `[0, len)` of the buffer hold the
/// elements in order; the remaining slots are empty spare capacity.
pub struct DynVec<T> {
    buf: RawVec<T>,
    len: usize,
}

impl<T> View for DynVec<T> {
    type V = Seq<T>;

    closed spec fn view(&self) -> Seq<T> {
        Seq::new(self.len as nat, |i: int| self.buf@[i].unwrap())
    }
}

impl<T> DynVec<T> {
    /// Well-formed: the occupied slots are exactly the first `len` of the
    /// buffer; every slot past them holds no element.
    pub closed spec fn wf(&self) -> bool {
        &&& self.len <= self.buf@.len()
        &&& forall|i: int| 0 <= i < self.len ==> self.buf@[i] is Some
        &&& forall|i: int| self.len <= i < self.buf@.len() ==> self.buf@[i] is None
    }

    /// The capacity of the backing buffer.
    pub closed spec fn cap(&self) -> nat {
        self.buf.cap()
    }

    /// A fresh, empty container with no allocation. Zero-sized element
    /// types are unsupported, as for the buffer itself.
    pub fn new() -> (r: Self)
        requires
            vstd::layout::size_of::<T>() != 0,
        ensures
            r.wf(),
            r@ == Seq::<T>::empty(),
            r.cap() == 0,
    {
        let r = DynVec { buf: RawVec::<T>::new(), len: 0 };
        proof {
            assert(r@ =~= Seq::<T>::empty());
        }
        r
    }

    /// The number of elements held.
    pub fn len(&self) -> (r: usize)
        ensures
            r == self@.len(),
    {
        self.len
    }

    /// The capacity as a machine integer.
    pub fn capacity(&self) -> (r: usize)
        ensures
            r == self.cap(),
    {
        self.buf.capacity()
    }

    /// Append `elem` after the last element, growing the buffer by doubling
    /// exactly when it is full.
    pub fn push(&mut self, elem: T)
        requires
            old(self).wf(),
            old(self)@.len() == old(self).cap() ==> 2 * old(self)@.len() <= usize::MAX,
        ensures
            final(self).wf(),
            final(self)@ == old(self)@.push(elem),
            final(self).cap() == grown_cap(old(self)@.len(), old(self).cap()),
    {
        if self.len == self.buf.capacity() {
            self.buf.grow();
        }
        self.buf.write_slot(self.len, Some(elem));
        self.len = self.len + 1;
        proof {
            assert(self@ =~= old(self)@.push(elem));
        }
    }

    /// Take the last element out, or report emptiness: `None` exactly when
    /// the container holds nothing.
    pub fn pop(&mut self) -> (r: Option<T>)
        requires
            old(self).wf(),
        ensures
            final(self).wf(),
            final(self).cap() == old(self).cap(),
            old(self)@.len() == 0 ==> r is None && final(self)@ == old(self)@,
            old(self)@.len() > 0 ==> r == Some(old(self)@.last()) && final(self)@ == old(
                self,
            )@.drop_last(),
    {
        if self.len == 0 {
            return None;
        }
        self.len = self.len - 1;
        let r = self.buf.take_slot(self.len);
        proof {
            assert(self@ =~= old(self)@.drop_last());
        }
        r
    }

    /// Insert `elem` at position `index`, shifting the elements at
    /// `[index, len)` one slot to the right, highest first, so that no
    /// element is overwritten before it has moved.
    pub fn insert(&mut self, index: usize, elem: T)
        requires
            old(self).wf(),
            index <= old(self)@.len(),
            old(self)@.len() == old(self).cap() ==> 2 * old(self)@.len() <= usize::MAX,
        ensures
            final(self).wf(),
            final(self)@ == old(self)@.insert(index as int, elem),
            final(self).cap() == grown_cap(old(self)@.len(), old(self).cap()),
    {
        if self.len == self.buf.capacity() {
            self.buf.grow();
        }
        let ghost slots0 = self.buf@;
        proof {
            assert(forall|i: int| 0 <= i < old(self)@.len() ==> slots0[i] == old(self).buf@[i]);
            assert(forall|i: int| 0 <= i < old(self)@.len() ==> slots0[i] is Some);
        }
        let mut hole: usize = self.len;
        while hole > index
            invariant
                index <= hole <= self.len,
                self.len < slots0.len(),
                self.len == old(self)@.len(),
                self.buf@.len() == slots0.len(),
                forall|i: int| 0 <= i < hole ==> self.buf@[i] == slots0[i],
                self.buf@[hole as int] is None,
                forall|i: int| hole < i <= self.len ==> self.buf@[i] == slots0[i - 1],
                forall|i: int| self.len < i < self.buf@.len() ==> self.buf@[i] is None,
            decreases hole,
        {
            let moved = self.buf.take_slot(hole - 1);
            self.buf.write_slot(hole, moved);
            hole = hole - 1;
        }
        self.buf.write_slot(hole, Some(elem));
        self.len = self.len + 1;
        proof {
            assert forall|i: int| 0 <= i < self.len implies self.buf@[i] is Some by {
                if i < index {
                    assert(self.buf@[i] == slots0[i]);
                } else if i > index {
                    assert(self.buf@[i] == slots0[i - 1]);
                }
            }
            assert(self.wf());
            assert(self@ =~= old(self)@.insert(index as int, elem));
        }
    }

    /// Remove and return the element at position `index`, shifting the
    /// elements at `(index, len)` one slot to the left, lowest first, to
    /// close the gap.
    pub fn remove(&mut self, index: usize) -> (r: T)
        requires
            old(self).wf(),
            index < old(self)@.len(),
        ensures
            final(self).wf(),
            final(self).cap() == old(self).cap(),
            r == old(self)@[index as int],
            final(self)@ == old(self)@.remove(index as int),
    {
        let taken = self.buf.take_slot(index);
        let mut hole: usize = index;
        while hole + 1 < self.len
            invariant
                index <= hole < self.len,
                self.len <= self.buf@.len(),
                self.len == old(self)@.len(),
                self.buf@.len() == old(self).buf@.len(),
                forall|i: int| 0 <= i < index ==> self.buf@[i] == old(self).buf@[i],
                forall|i: int| index <= i < hole ==> self.buf@[i] == old(self).buf@[i + 1],
                self.buf@[hole as int] is None,
                forall|i: int| hole < i < self.len ==> self.buf@[i] == old(self).buf@[i],
                forall|i: int| self.len <= i < self.buf@.len() ==> self.buf@[i] is None,
            decreases self.len - hole,
        {
            let moved = self.buf.take_slot(hole + 1);
            self.buf.write_slot(hole, moved);
            hole = hole + 1;
        }
        self.len = self.len - 1;
        proof {
            assert(self@ =~= old(self)@.remove(index as int));
        }
        taken.unwrap()
    }

    /// Read the element at position `index` of the contiguous view.
    pub fn get(&self, index: usize) -> (r: &T)
        requires
            self.wf(),
            index < self@.len(),
        ensures
            *r == self@[index as int],
    {
        self.buf.read_slot(index).as_ref().unwrap()
    }

    /// Overwrite the element at position `index` of the contiguous view with
    /// `elem`; the element previously there leaves the container.
    pub fn set_at(&mut self, index: usize, elem: T)
        requires
            old(self).wf(),
            index < old(self)@.len(),
        ensures
            final(self).wf(),
            final(self).cap() == old(self).cap(),
            final(self)@ == old(self)@.update(index as int, elem),
    {
        self.buf.write_slot(index, Some(elem));
        proof {
            assert(self@ =~= old(self)@.update(index as int, elem));
        }
    }

    /// Consume the container into an iterator that delivers the elements in
    /// occupancy order. Ownership of the buffer, and with it the duty to
    /// release whatever elements are still inside, moves wholly to the
    /// iterator; the container itself is gone.
    pub fn into_iter(self) -> (it: IntoIter<T>)
        requires
            self.wf(),
        ensures
            it.wf(),
            it@ == self@,
    {
        let DynVec { buf, len } = self;
        let it = IntoIter { buf, start: 0, end: len };
        proof {
            assert(it@ =~= self@);
        }
        it
    }
}

/// Consuming iteration state: owns the buffer taken from a dynamic array.
/// The slots in `[start, end)` hold the elements not yet delivered; every
/// slot outside that range is empty.
pub struct IntoIter<T> {
    buf: RawVec<T>,
    start: usize,
    end: usize,
}

impl<T> View for IntoIter<T> {
    type V = Seq<T>;

    closed spec fn view(&self) -> Seq<T> {
        Seq::new((self.end - self.start) as nat, |i: int| self.buf@[self.start + i].unwrap())
    }
}

impl<T> IntoIter<T> {
    /// Well-formed: the undelivered elements sit exactly in `[start, end)`.
    pub closed spec fn wf(&self) -> bool {
        &&& self.start <= self.end <= self.buf@.len()
        &&& forall|i: int| self.start <= i < self.end ==> self.buf@[i] is Some
        &&& forall|i: int| 0 <= i < self.start ==> self.buf@[i] is None
        &&& forall|i: int| self.end <= i < self.buf@.len() ==> self.buf@[i] is None
    }

    /// Deliver the next undelivered element, or the end signal: `None`
    /// exactly when every element has been delivered. Single-pass, forward
    /// only.
    pub fn next(&mut self) -> (r: Option<T>)
        requires
            old(self).wf(),
        ensures
            final(self).wf(),
            old(self)@.len() == 0 ==> r is None && final(self)@ == old(self)@,
            old(self)@.len() > 0 ==> r == Some(old(self)@.first()) && final(self)@ == old(
                self,
            )@.drop_first(),
    {
        if self.start == self.end {
            return None;
        }
        let r = self.buf.take_slot(self.start);
        self.start = self.start + 1;
        proof {
            assert(self@ =~= old(self)@.drop_first());
        }
        r
    }
}

} // verus!
