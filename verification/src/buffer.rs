use vstd::layout::size_of;
use vstd::prelude::*;

verus! {

/// The owned backing store of the container: a block of slots, each either
/// holding an element (`Some`) or standing uninitialized (`None`).
///
/// The buffer never decides which slots are live; its owner does. It only
/// offers slot-level reads, writes and moves, and doubling growth starting
/// from a single slot. Because each slot is an owned value, releasing the
/// block exactly once is guaranteed by single ownership.
///
/// Zero-sized elements occupy no storage, so for them every representable
/// count of slots is free from the start: the buffer reports the
/// maximum-count sentinel `usize::MAX` as its capacity, all slots
/// uninitialized, and growth is never needed — `grow` rules such element
/// types out, so reaching it with one is a capacity-overflow bug excluded
/// ahead of the call. Slot bookkeeping for them degenerates to a counter
/// behind the fixed sentinel.
#[derive(Debug)]
pub struct RawVec<T> {
    slots: Vec<Option<T>>,
}

impl<T> View for RawVec<T> {
    type V = Seq<Option<T>>;

    closed spec fn view(&self) -> Seq<Option<T>> {
        if size_of::<T>() == 0 {
            Seq::new(
                usize::MAX as nat,
                |i: int|
                    if 0 <= i < self.slots@.len() {
                        self.slots@[i]
                    } else {
                        None
                    },
            )
        } else {
            self.slots@
        }
    }
}

impl<T> RawVec<T> {
    /// An empty buffer: every slot uninitialized. For a zero-sized element
    /// type the capacity is already the maximum-count sentinel; otherwise
    /// there are no slots yet.
    pub fn new() -> (r: Self)
        ensures
            size_of::<T>() == 0 ==> r@.len() == usize::MAX,
            size_of::<T>() != 0 ==> r@.len() == 0,
            forall|i: int| 0 <= i < r@.len() ==> r@[i] is None,
    {
        RawVec { slots: Vec::new() }
    }

    /// The number of slots the buffer holds.
    pub fn cap(&self) -> (r: usize)
        ensures
            r == self@.len(),
    {
        if core::mem::size_of::<T>() == 0 {
            usize::MAX
        } else {
            self.slots.len()
        }
    }

    /// Doubling growth: one slot if there were none, twice as many
    /// otherwise. Slots already present keep their contents; the new ones
    /// are uninitialized. A zero-sized element type never reaches here: its
    /// capacity is maximal from the start, so arriving would mean the slot
    /// counter overflowed.
    pub fn grow(&mut self)
        requires
            size_of::<T>() != 0,
            old(self)@.len() <= usize::MAX / 2,
        ensures
            final(self)@.len() == if old(self)@.len() == 0 { 1nat } else { 2 * old(self)@.len() },
            forall|i: int| 0 <= i < old(self)@.len() ==> final(self)@[i] == old(self)@[i],
            forall|i: int|
                old(self)@.len() <= i < final(self)@.len() ==> final(self)@[i] is None,
    {
        let ghost orig = self.slots@;
        let old_cap = self.slots.len();
        let new_cap: usize = if old_cap == 0 { 1 } else { 2 * old_cap };
        while self.slots.len() < new_cap
            invariant
                size_of::<T>() != 0,
                orig.len() == old_cap,
                new_cap == if old_cap == 0 { 1int } else { 2 * old_cap },
                old_cap <= self.slots@.len() <= new_cap,
                forall|i: int| 0 <= i < old_cap ==> self.slots@[i] == orig[i],
                forall|i: int| old_cap <= i < self.slots@.len() ==> self.slots@[i] is None,
            decreases new_cap - self.slots@.len(),
        {
            self.slots.push(None);
        }
    }

    /// Write `v` into the uninitialized slot `i`. Requiring the slot to be
    /// empty guarantees no live element is silently destroyed by the write.
    pub fn put(&mut self, i: usize, v: T)
        requires
            i < old(self)@.len(),
            old(self)@[i as int] is None,
        ensures
            final(self)@ =~= old(self)@.update(i as int, Some(v)),
    {
        while self.slots.len() <= i
            invariant
                i < old(self)@.len(),
                self@ == old(self)@,
            decreases i + 1 - self.slots@.len(),
        {
            proof {
                assert(size_of::<T>() == 0);
            }
            self.slots.push(None);
            proof {
                assert(self@ =~= old(self)@);
            }
        }
        self.slots[i] = Some(v);
        proof {
            assert(self@ =~= old(self)@.update(i as int, Some(v)));
        }
    }

    /// Move the element out of slot `i`, leaving the slot uninitialized.
    pub fn take(&mut self, i: usize) -> (r: T)
        requires
            i < old(self)@.len(),
            old(self)@[i as int] is Some,
        ensures
            r == old(self)@[i as int]->0,
            final(self)@ =~= old(self)@.update(i as int, None),
    {
        proof {
            assert(i < self.slots@.len());
        }
        let mut tmp: Option<T> = None;
        core::mem::swap(&mut tmp, &mut self.slots[i]);
        proof {
            assert(self@ =~= old(self)@.update(i as int, None));
        }
        tmp.unwrap()
    }

    /// Borrow the element in slot `i`.
    pub fn borrow(&self, i: usize) -> (r: &T)
        requires
            i < self@.len(),
            self@[i as int] is Some,
        ensures
            *r == self@[i as int]->0,
    {
        proof {
            assert(i < self.slots@.len());
        }
        self.slots[i].as_ref().unwrap()
    }
}

} // verus!
