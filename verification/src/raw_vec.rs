//! The owned buffer: a block of element slots that knows its capacity and
//! how to double it, and nothing about which slots are occupied.

use vstd::prelude::*;

verus! {

/// Capacity after one growth step: one slot from empty, else twice as many.
pub open spec fn doubled(cap: nat) -> nat {
    if cap == 0 {
        1
    } else {
        2 * cap
    }
}

/// Backing storage for a dynamic array: `cap()` slots, each either empty
/// (`None`) or holding one live element (`Some`). The buffer manages raw
/// capacity only; which slots are occupied is its owner's business.
pub struct RawVec<T> {
    slots: Vec<Option<T>>,
}

impl<T> View for RawVec<T> {
    type V = Seq<Option<T>>;

    closed spec fn view(&self) -> Seq<Option<T>> {
        self.slots@
    }
}

impl<T> RawVec<T> {
    /// The number of slots.
    pub open spec fn cap(&self) -> nat {
        self@.len()
    }

    /// A fresh buffer with no slots and no allocation. Zero-sized element
    /// types are unsupported — capacity-based slot accounting is meaningless
    /// for them — so construction excludes them.
    pub fn new() -> (r: Self)
        requires
            vstd::layout::size_of::<T>() != 0,
        ensures
            r@ == Seq::<Option<T>>::empty(),
    {
        let slots: Vec<Option<T>> = Vec::new();
        proof {
            assert(slots@ =~= Seq::<Option<T>>::empty());
        }
        RawVec { slots }
    }

    /// The current capacity as a machine integer.
    pub fn capacity(&self) -> (r: usize)
        ensures
            r == self.cap(),
    {
        self.slots.len()
    }

    /// Double the capacity. Every existing slot keeps its content; every new
    /// slot is empty.
    pub fn grow(&mut self)
        requires
            2 * old(self).cap() <= usize::MAX,
        ensures
            final(self).cap() == doubled(old(self).cap()),
            forall|i: int| 0 <= i < old(self).cap() ==> final(self)@[i] == old(self)@[i],
            forall|i: int|
                old(self).cap() <= i < final(self).cap() ==> final(self)@[i] is None,
    {
        if self.slots.len() == 0 {
            self.slots.push(None);
        } else {
            let more: usize = self.slots.len();
            let mut added: usize = 0;
            while added < more
                invariant
                    added <= more,
                    more == old(self).cap(),
                    self.slots@.len() == more + added,
                    forall|i: int| 0 <= i < more ==> self.slots@[i] == old(self)@[i],
                    forall|i: int| more <= i < self.slots@.len() ==> self.slots@[i] is None,
                decreases more - added,
            {
                self.slots.push(None);
                added = added + 1;
            }
        }
    }

    /// Read the slot at `index`.
    pub fn read_slot(&self, index: usize) -> (r: &Option<T>)
        requires
            index < self.cap(),
        ensures
            *r == self@[index as int],
    {
        &self.slots[index]
    }

    /// Empty the slot at `index`, handing its previous content out.
    pub fn take_slot(&mut self, index: usize) -> (r: Option<T>)
        requires
            index < old(self).cap(),
        ensures
            r == old(self)@[index as int],
            final(self)@ == old(self)@.update(index as int, None),
    {
        self.slots[index].take()
    }

    /// Overwrite the slot at `index` with `content`.
    pub fn write_slot(&mut self, index: usize, content: Option<T>)
        requires
            index < old(self).cap(),
        ensures
            final(self)@ == old(self)@.update(index as int, content),
    {
        self.slots[index] = content;
    }
}

} // verus!
