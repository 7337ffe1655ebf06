//! A vector with stable slots: pushing hands out ever-growing indices, and
//! removing a value leaves a hole instead of shifting its neighbours.

use vstd::prelude::*;

verus! {

/// Whether at least one slot of `slots` still holds a value.
pub open spec fn has_live<V>(slots: Seq<Option<V>>) -> bool {
    exists|i: int| 0 <= i < slots.len() && (#[trigger] slots[i]) is Some
}

/// The values still held in `slots`, by ascending slot index.
pub open spec fn live_values<V>(slots: Seq<Option<V>>) -> Seq<V>
    decreases slots.len(),
{
    if slots.len() == 0 {
        Seq::empty()
    } else {
        match slots.last() {
            Some(v) => live_values(slots.drop_last()).push(v),
            None => live_values(slots.drop_last()),
        }
    }
}

/// A push-only vector of slots. A slot is either live (`Some`) or a hole
/// (`None`); the index of a slot never changes and is never handed out twice.
#[derive(Debug)]
pub struct MVec<V> {
    slots: Vec<Option<V>>,
}

impl<V> View for MVec<V> {
    type V = Seq<Option<V>>;

    closed spec fn view(&self) -> Seq<Option<V>> {
        self.slots@
    }
}

impl<V> MVec<V> {
    /// An empty vector: no slot was handed out yet.
    pub fn new() -> (out: Self)
        ensures
            out@ == Seq::<Option<V>>::empty(),
    {
        MVec { slots: Vec::new() }
    }

    /// The index that the next `push` will use.
    pub fn counter(&self) -> (n: usize)
        ensures
            n == self@.len(),
    {
        self.slots.len()
    }

    /// Stores `value` in a fresh slot at index `counter()`.
    pub fn push(&mut self, value: V)
        ensures
            final(self)@ == old(self)@.push(Some(value)),
    {
        self.slots.push(Some(value));
    }

    /// Empties slot `id` and returns what it held. A hole, or an index that
    /// was never handed out, gives `None` and changes nothing.
    pub fn remove(&mut self, id: usize) -> (out: Option<V>)
        ensures
            id < old(self)@.len() ==> out == old(self)@[id as int]
                && final(self)@ == old(self)@.update(id as int, None),
            id >= old(self)@.len() ==> out is None && final(self)@ == old(self)@,
    {
        if id < self.slots.len() {
            self.slots[id].take()
        } else {
            None
        }
    }

    /// Whether every slot is a hole.
    pub fn is_empty(&self) -> (out: bool)
        ensures
            out == !has_live(self@),
    {
        let mut i: usize = 0;
        while i < self.slots.len()
            invariant
                i <= self.slots.len(),
                forall|j: int| 0 <= j < i ==> (#[trigger] self.slots@[j]) is None,
            decreases self.slots.len() - i,
        {
            if self.slots[i].is_some() {
                return false;
            }
            i += 1;
        }
        true
    }
}

impl<V: Copy> MVec<V> {
    /// The live values, by ascending slot index.
    pub fn values(&self) -> (out: Vec<V>)
        ensures
            out@ == live_values(self@),
    {
        let mut out: Vec<V> = Vec::new();
        let mut i: usize = 0;
        while i < self.slots.len()
            invariant
                i <= self.slots.len(),
                out@ == live_values(self.slots@.take(i as int)),
            decreases self.slots.len() - i,
        {
            proof {
                let next = self.slots@.take(i + 1);
                assert(next.drop_last() =~= self.slots@.take(i as int));
                assert(next.last() == self.slots@[i as int]);
            }
            match self.slots[i] {
                Some(value) => out.push(value),
                None => {},
            }
            i += 1;
        }
        proof {
            assert(self.slots@.take(i as int) =~= self.slots@);
        }
        out
    }
}

} // verus!
