use vstd::layout::size_of;
use vstd::prelude::*;

use crate::buffer::RawVec;
use crate::iter::Drain;
use crate::iter::IntoIter;

verus! {

/// A positive power of two: the only slot counts a grown buffer can have.
pub open spec fn is_pow2(n: nat) -> bool
    decreases n,
{
    if n == 0 {
        false
    } else if n == 1 {
        true
    } else {
        n % 2 == 0 && is_pow2(n / 2)
    }
}

/// Doubling a power of two (or starting from one) yields a power of two.
pub proof fn lemma_pow2_double(n: nat)
    requires
        n == 0 || is_pow2(n),
    ensures
        is_pow2(if n == 0 { 1nat } else { 2 * n }),
{
    if n != 0 {
        assert((2 * n) / 2 == n);
        assert(is_pow2(2 * n));
    }
}

/// Between two powers of two, the smaller doubled still fits under the
/// larger.
pub proof fn lemma_pow2_lt_double_le(c: nat, d: nat)
    requires
        is_pow2(c),
        is_pow2(d),
        c < d,
    ensures
        2 * c <= d,
    decreases d,
{
    if c == 1 {
        assert(d >= 2);
    } else {
        assert(c % 2 == 0 && is_pow2(c / 2));
        assert(d != 1);
        assert(d % 2 == 0 && is_pow2(d / 2));
        lemma_pow2_lt_double_le(c / 2, d / 2);
    }
}

/// The growable sequence container: an owned slot buffer together with the
/// count of leading slots that hold live elements.
///
/// Destroying the container destroys each live element exactly once, with
/// its slot, before the slot storage itself is released; because the slots
/// own their elements, no separate destruction pass exists to forget or to
/// run twice.
#[derive(Debug)]
pub struct Vec<T> {
    buf: RawVec<T>,
    len: usize,
}

impl<T> View for Vec<T> {
    type V = Seq<T>;

    closed spec fn view(&self) -> Seq<T> {
        Seq::new(self.len as nat, |i: int| self.buf@[i]->0)
    }
}

impl<T> Vec<T> {
    /// Well-formed: the live prefix `[0, len)` is initialized, every slot
    /// past it is uninitialized, and the slot count is zero or a power of
    /// two (doubling growth starting from one slot) — except for a
    /// zero-sized element type, whose capacity is pinned at the
    /// maximum-count sentinel and never grows.
    pub closed spec fn wf(&self) -> bool {
        &&& self.len <= self.buf@.len()
        &&& forall|i: int| 0 <= i < self.len ==> self.buf@[i] is Some
        &&& forall|i: int| self.len <= i < self.buf@.len() ==> self.buf@[i] is None
        &&& if size_of::<T>() == 0 {
            self.buf@.len() == usize::MAX
        } else {
            self.buf@.len() == 0 || is_pow2(self.buf@.len())
        }
    }

    /// The number of slots currently backing the container.
    pub closed spec fn spec_cap(&self) -> nat {
        self.buf@.len()
    }

    /// The capacity invariant: a well-formed container is backed by zero
    /// slots or by a power of two of them, never fewer than its length; with
    /// no slots it holds no elements. Together with the capacity clauses of
    /// `push`, this pins the doubling growth policy: after `n` appends the
    /// length is `n` and the capacity is zero (for `n == 0`) or a power of
    /// two at least `n`. A zero-sized element type stands apart: its
    /// capacity is the maximum-count sentinel from the start and stays
    /// there.
    pub proof fn lemma_capacity_invariant(&self)
        requires
            self.wf(),
        ensures
            self@.len() <= self.spec_cap(),
            size_of::<T>() == 0 ==> self.spec_cap() == usize::MAX,
            size_of::<T>() != 0 ==> self.spec_cap() == 0 || is_pow2(self.spec_cap()),
            self.spec_cap() == 0 ==> self@.len() == 0,
    {
    }

    /// An empty container. No slots are allocated yet — except that for a
    /// zero-sized element type the capacity is already the maximum-count
    /// sentinel, since such slots occupy no storage.
    pub fn new() -> (r: Self)
        ensures
            r.wf(),
            r@ == Seq::<T>::empty(),
            size_of::<T>() == 0 ==> r.spec_cap() == usize::MAX,
            size_of::<T>() != 0 ==> r.spec_cap() == 0,
    {
        let r = Vec { buf: RawVec::new(), len: 0 };
        proof {
            assert(r@ =~= Seq::<T>::empty());
        }
        r
    }

    /// The number of live elements.
    pub fn len(&self) -> (r: usize)
        requires
            self.wf(),
        ensures
            r == self@.len(),
    {
        self.len
    }

    /// The number of slots currently backing the container.
    pub fn cap(&self) -> (r: usize)
        requires
            self.wf(),
        ensures
            r == self.spec_cap(),
    {
        self.buf.cap()
    }

    /// Append `elem` after the live elements, growing the buffer first when
    /// every slot is taken. Growth doubles the slot count, starting at one,
    /// so the capacity either stays put or moves to the next power of two.
    /// A zero-sized element type never grows: its capacity is maximal from
    /// the start, and the length bound below keeps its slot counter from
    /// ever reaching it.
    pub fn push(&mut self, elem: T)
        requires
            old(self).wf(),
            old(self)@.len() < usize::MAX / 2,
        ensures
            final(self).wf(),
            final(self)@ == old(self)@.push(elem),
            old(self)@.len() < old(self).spec_cap() ==> final(self).spec_cap() == old(
                self,
            ).spec_cap(),
            old(self)@.len() == old(self).spec_cap() ==> final(self).spec_cap() == (
            if old(self).spec_cap() == 0 {
                1nat
            } else {
                2 * old(self).spec_cap()
            }),
    {
        if self.len == self.buf.cap() {
            proof {
                assert(size_of::<T>() != 0);
                lemma_pow2_double(self.buf@.len());
            }
            self.buf.grow();
        }
        self.buf.put(self.len, elem);
        self.len = self.len + 1;
        proof {
            assert(self@ =~= old(self)@.push(elem));
        }
    }

    /// Remove and return the last live element, or nothing when the
    /// container is empty: the one recoverable "no value" outcome. The
    /// capacity never shrinks.
    pub fn pop(&mut self) -> (r: Option<T>)
        requires
            old(self).wf(),
        ensures
            final(self).wf(),
            final(self).spec_cap() == old(self).spec_cap(),
            old(self)@.len() == 0 ==> r is None && final(self)@ == old(self)@,
            old(self)@.len() > 0 ==> r == Some(old(self)@.last()) && final(self)@ == old(
                self,
            )@.drop_last(),
    {
        if self.len == 0 {
            proof {
                assert(self@ =~= old(self)@);
            }
            None
        } else {
            self.len = self.len - 1;
            let v = self.buf.take(self.len);
            proof {
                assert(self@ =~= old(self)@.drop_last());
            }
            Some(v)
        }
    }

    /// Insert `elem` at `index`, shifting `[index, len)` one slot to the
    /// right. Inserting at `index == len` appends; any larger index is a
    /// caller bug and is ruled out ahead of the call.
    pub fn insert(&mut self, index: usize, elem: T)
        requires
            old(self).wf(),
            index <= old(self)@.len(),
            old(self)@.len() < usize::MAX / 2,
        ensures
            final(self).wf(),
            final(self)@ == old(self)@.insert(index as int, elem),
            old(self)@.len() < old(self).spec_cap() ==> final(self).spec_cap() == old(
                self,
            ).spec_cap(),
            old(self)@.len() == old(self).spec_cap() ==> final(self).spec_cap() == (
            if old(self).spec_cap() == 0 {
                1nat
            } else {
                2 * old(self).spec_cap()
            }),
    {
        if self.len == self.buf.cap() {
            proof {
                assert(size_of::<T>() != 0);
                lemma_pow2_double(self.buf@.len());
            }
            self.buf.grow();
        }
        let ghost buf0 = self.buf@;
        let ghost len0 = self.len as int;
        let mut j = self.len;
        while j > index
            invariant
                old(self).wf(),
                index <= j <= len0,
                len0 == self.len,
                len0 == old(self)@.len(),
                len0 < self.buf@.len(),
                self.buf@.len() == buf0.len(),
                size_of::<T>() == 0 ==> buf0.len() == usize::MAX,
                size_of::<T>() != 0 ==> buf0.len() == 0 || is_pow2(buf0.len()),
                old(self)@.len() < old(self).spec_cap() ==> buf0.len() == old(self).spec_cap(),
                old(self)@.len() == old(self).spec_cap() ==> buf0.len() == (
                if old(self).spec_cap() == 0 {
                    1nat
                } else {
                    2 * old(self).spec_cap()
                }),
                forall|i: int| 0 <= i < len0 ==> buf0[i] is Some,
                forall|i: int| 0 <= i < len0 ==> buf0[i]->0 == old(self)@[i],
                forall|i: int| 0 <= i < j ==> self.buf@[i] == buf0[i],
                self.buf@[j as int] is None,
                forall|i: int| j < i <= len0 ==> self.buf@[i] == buf0[i - 1],
                forall|i: int| len0 < i < self.buf@.len() ==> self.buf@[i] is None,
            decreases j,
        {
            proof {
                assert(self.buf@[j as int - 1] == buf0[j as int - 1]);
            }
            let v = self.buf.take(j - 1);
            self.buf.put(j, v);
            j = j - 1;
        }
        self.buf.put(index, elem);
        self.len = self.len + 1;
        proof {
            assert forall|i: int| 0 <= i < self.len implies self.buf@[i] is Some by {
                if i < index {
                    assert(self.buf@[i] == buf0[i]);
                } else if i > index {
                    assert(self.buf@[i] == buf0[i - 1]);
                    assert(buf0[i - 1] is Some);
                }
            }
            assert(self@ =~= old(self)@.insert(index as int, elem));
        }
    }

    /// Remove and return the element at `index`, shifting `(index, len)` one
    /// slot to the left to close the gap. An index at or past the length is
    /// a caller bug and is ruled out ahead of the call.
    pub fn remove(&mut self, index: usize) -> (r: T)
        requires
            old(self).wf(),
            index < old(self)@.len(),
        ensures
            final(self).wf(),
            final(self).spec_cap() == old(self).spec_cap(),
            r == old(self)@[index as int],
            final(self)@ == old(self)@.remove(index as int),
    {
        let ghost buf0 = self.buf@;
        let ghost len0 = self.len as int;
        let r = self.buf.take(index);
        let mut j = index;
        while j + 1 < self.len
            invariant
                old(self).wf(),
                buf0 == old(self).buf@,
                index <= j < len0,
                len0 == self.len,
                len0 == old(self)@.len(),
                len0 <= self.buf@.len(),
                self.buf@.len() == buf0.len(),
                forall|i: int| 0 <= i < len0 ==> buf0[i] is Some,
                forall|i: int|
                    0 <= i < j ==> self.buf@[i] == (if i < index {
                        buf0[i]
                    } else {
                        buf0[i + 1]
                    }),
                self.buf@[j as int] is None,
                forall|i: int| j < i < len0 ==> self.buf@[i] == buf0[i],
                forall|i: int| len0 <= i < self.buf@.len() ==> self.buf@[i] is None,
            decreases len0 - j,
        {
            proof {
                assert(self.buf@[j as int + 1] == buf0[j as int + 1]);
            }
            let v = self.buf.take(j + 1);
            self.buf.put(j, v);
            j = j + 1;
        }
        self.len = self.len - 1;
        proof {
            assert(self@ =~= old(self)@.remove(index as int));
        }
        r
    }

    /// Borrow the live element at `index`: the read half of the contiguous
    /// indexed view over `[0, len)`.
    pub fn get(&self, index: usize) -> (r: &T)
        requires
            self.wf(),
            index < self@.len(),
        ensures
            *r == self@[index as int],
    {
        self.buf.borrow(index)
    }

    /// Replace the live element at `index`: the write half of the indexed
    /// view. The previous element is destroyed with the temporary that
    /// carried it out.
    pub fn set(&mut self, index: usize, elem: T)
        requires
            old(self).wf(),
            index < old(self)@.len(),
        ensures
            final(self).wf(),
            final(self).spec_cap() == old(self).spec_cap(),
            final(self)@ == old(self)@.update(index as int, elem),
    {
        let _old = self.buf.take(index);
        self.buf.put(index, elem);
        proof {
            assert(self@ =~= old(self)@.update(index as int, elem));
        }
    }

    /// Hand the buffer and the live elements over to a consuming iterator.
    /// The container is moved out of existence, so its own destruction logic
    /// can never run again on what it gave away.
    pub fn into_iter(self) -> (it: IntoIter<T>)
        requires
            self.wf(),
        ensures
            it.wf(),
            it@ == self@,
    {
        let Vec { buf, len } = self;
        let it = IntoIter::from_parts(buf, len);
        proof {
            assert(it@ =~= self@);
        }
        it
    }

    /// Remove all live elements into a draining iterator, leaving the
    /// container empty but with its slots still allocated for reuse. The
    /// length drops to zero the moment the drain is made, so destroying the
    /// container later cannot touch the drained elements again, however the
    /// drain itself ends.
    pub fn drain(&mut self) -> (d: Drain<T>)
        requires
            old(self).wf(),
        ensures
            final(self).wf(),
            final(self)@ == Seq::<T>::empty(),
            final(self).spec_cap() == old(self).spec_cap(),
            d.wf(),
            d@ == old(self)@,
    {
        let n = self.len;
        let cap0 = self.buf.cap();
        let mut taken = RawVec::new();
        while taken.cap() < n
            invariant
                old(self).wf(),
                n == old(self)@.len(),
                n <= old(self).spec_cap(),
                cap0 == old(self).spec_cap(),
                self.len == old(self).len,
                self.buf@ == old(self).buf@,
                size_of::<T>() == 0 ==> taken@.len() == usize::MAX,
                size_of::<T>() != 0 ==> taken@.len() == 0 || is_pow2(taken@.len()),
                forall|k: int| 0 <= k < taken@.len() ==> taken@[k] is None,
            decreases (if taken@.len() < n {
                n - taken@.len()
            } else {
                0int
            }),
        {
            proof {
                assert(size_of::<T>() != 0);
                if taken@.len() != 0 {
                    lemma_pow2_lt_double_le(taken@.len(), old(self).spec_cap());
                    assert(2 * taken@.len() <= cap0);
                }
                lemma_pow2_double(taken@.len());
            }
            taken.grow();
        }
        let ghost tcap = taken@.len();
        let mut i: usize = 0;
        while i < n
            invariant
                old(self).wf(),
                n == old(self)@.len(),
                i <= n,
                self.len == old(self).len,
                self.buf@.len() == old(self).buf@.len(),
                forall|k: int| 0 <= k < i ==> self.buf@[k] is None,
                forall|k: int| i <= k < self.buf@.len() ==> self.buf@[k] == old(self).buf@[k],
                taken@.len() == tcap,
                n <= tcap,
                forall|k: int| 0 <= k < i ==> taken@[k] == old(self).buf@[k],
                forall|k: int| i <= k < taken@.len() ==> taken@[k] is None,
            decreases n - i,
        {
            let v = self.buf.take(i);
            taken.put(i, v);
            i = i + 1;
        }
        self.len = 0;
        let d = Drain::from_parts(taken, n);
        proof {
            assert(d@ =~= old(self)@);
            assert(self@ =~= Seq::<T>::empty());
        }
        d
    }
}

} // verus!
