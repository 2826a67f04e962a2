use vstd::prelude::*;

use crate::buffer::RawVec;

verus! {

/// The shared cursor behind the owning iterators: a buffer together with a
/// half-open range `[start, end)` of initialized slots still to be yielded.
/// The range only shrinks, from either side, and each slot is yielded at
/// most once whichever way the two ends are interleaved. The cursor owns the
/// buffer, so whatever it has not yielded is destroyed with it, exactly
/// once, when it is dropped.
pub(crate) struct RawValIter<T> {
    buf: RawVec<T>,
    start: usize,
    end: usize,
}

impl<T> View for RawValIter<T> {
    type V = Seq<T>;

    closed spec fn view(&self) -> Seq<T> {
        Seq::new((self.end - self.start) as nat, |i: int| self.buf@[self.start + i]->0)
    }
}

impl<T> RawValIter<T> {
    /// Well-formed: the range lies inside the buffer and every slot in it is
    /// initialized.
    pub closed spec fn wf(&self) -> bool {
        &&& self.start <= self.end <= self.buf@.len()
        &&& forall|i: int| self.start <= i < self.end ==> self.buf@[i] is Some
    }

    /// Take over `buf`, whose first `len` slots are initialized, as the
    /// range still to be yielded.
    pub(crate) fn new(buf: RawVec<T>, len: usize) -> (r: Self)
        requires
            len <= buf@.len(),
            forall|i: int| 0 <= i < len ==> buf@[i] is Some,
        ensures
            r.wf(),
            r@ == Seq::new(len as nat, |i: int| buf@[i]->0),
    {
        let r = RawValIter { buf, start: 0, end: len };
        proof {
            assert(r@ =~= Seq::new(len as nat, |i: int| buf@[i]->0));
        }
        r
    }

    /// Yield the front element of the range, or nothing once it is empty.
    pub(crate) fn next(&mut self) -> (r: Option<T>)
        requires
            old(self).wf(),
        ensures
            final(self).wf(),
            old(self)@.len() == 0 ==> r is None && final(self)@ == old(self)@,
            old(self)@.len() > 0 ==> r == Some(old(self)@.first()) && final(self)@ == old(
                self,
            )@.drop_first(),
    {
        if self.start == self.end {
            proof {
                assert(self@ =~= old(self)@);
            }
            None
        } else {
            let v = self.buf.take(self.start);
            self.start = self.start + 1;
            proof {
                assert(self@ =~= old(self)@.drop_first());
            }
            Some(v)
        }
    }

    /// Yield the back element of the range, or nothing once it is empty.
    pub(crate) fn next_back(&mut self) -> (r: Option<T>)
        requires
            old(self).wf(),
        ensures
            final(self).wf(),
            old(self)@.len() == 0 ==> r is None && final(self)@ == old(self)@,
            old(self)@.len() > 0 ==> r == Some(old(self)@.last()) && final(self)@ == old(
                self,
            )@.drop_last(),
    {
        if self.start == self.end {
            proof {
                assert(self@ =~= old(self)@);
            }
            None
        } else {
            self.end = self.end - 1;
            let v = self.buf.take(self.end);
            proof {
                assert(self@ =~= old(self)@.drop_last());
            }
            Some(v)
        }
    }

    /// How many elements are left: exact, so both bounds of the estimate
    /// coincide.
    pub(crate) fn size_hint(&self) -> (r: (usize, Option<usize>))
        requires
            self.wf(),
        ensures
            r.0 == self@.len(),
            r.1 == Some(r.0),
    {
        let n = self.end - self.start;
        (n, Some(n))
    }
}

/// Consuming iteration over a whole container: it owns the buffer and
/// yields the elements by value, from the front with `next` and from the
/// back with `next_back`. Dropped early, it destroys every unyielded
/// element, exactly once, together with its buffer.
pub struct IntoIter<T> {
    iter: RawValIter<T>,
}

impl<T> View for IntoIter<T> {
    type V = Seq<T>;

    closed spec fn view(&self) -> Seq<T> {
        self.iter@
    }
}

impl<T> IntoIter<T> {
    /// Well-formed: the cursor is.
    pub closed spec fn wf(&self) -> bool {
        self.iter.wf()
    }

    pub(crate) fn from_parts(buf: RawVec<T>, len: usize) -> (r: Self)
        requires
            len <= buf@.len(),
            forall|i: int| 0 <= i < len ==> buf@[i] is Some,
        ensures
            r.wf(),
            r@ == Seq::new(len as nat, |i: int| buf@[i]->0),
    {
        IntoIter { iter: RawValIter::new(buf, len) }
    }

    /// Yield the first remaining element, or nothing once exhausted.
    pub fn next(&mut self) -> (r: Option<T>)
        requires
            old(self).wf(),
        ensures
            final(self).wf(),
            old(self)@.len() == 0 ==> r is None && final(self)@ == old(self)@,
            old(self)@.len() > 0 ==> r == Some(old(self)@.first()) && final(self)@ == old(
                self,
            )@.drop_first(),
    {
        self.iter.next()
    }

    /// Yield the last remaining element, or nothing once exhausted.
    pub fn next_back(&mut self) -> (r: Option<T>)
        requires
            old(self).wf(),
        ensures
            final(self).wf(),
            old(self)@.len() == 0 ==> r is None && final(self)@ == old(self)@,
            old(self)@.len() > 0 ==> r == Some(old(self)@.last()) && final(self)@ == old(
                self,
            )@.drop_last(),
    {
        self.iter.next_back()
    }

    /// How many elements are left: exact.
    pub fn size_hint(&self) -> (r: (usize, Option<usize>))
        requires
            self.wf(),
        ensures
            r.0 == self@.len(),
            r.1 == Some(r.0),
    {
        self.iter.size_hint()
    }
}

/// Draining iteration: the elements removed from a container, to be yielded
/// by value. Both `next` and `next_back` pop from the tail, so a drain
/// consumed front-to-back yields the elements in reverse index order; this
/// asymmetry with `IntoIter` is kept deliberately. Dropped early, the drain
/// destroys every unyielded element exactly once; the container was already
/// emptied when the drain was made, so nothing is destroyed twice.
pub struct Drain<T> {
    iter: RawValIter<T>,
}

impl<T> View for Drain<T> {
    type V = Seq<T>;

    closed spec fn view(&self) -> Seq<T> {
        self.iter@
    }
}

impl<T> Drain<T> {
    /// Well-formed: the cursor is.
    pub closed spec fn wf(&self) -> bool {
        self.iter.wf()
    }

    pub(crate) fn from_parts(buf: RawVec<T>, len: usize) -> (r: Self)
        requires
            len <= buf@.len(),
            forall|i: int| 0 <= i < len ==> buf@[i] is Some,
        ensures
            r.wf(),
            r@ == Seq::new(len as nat, |i: int| buf@[i]->0),
    {
        Drain { iter: RawValIter::new(buf, len) }
    }

    /// Yield the *last* remaining element, or nothing once exhausted: a
    /// drain pops from the tail even when consumed forward.
    pub fn next(&mut self) -> (r: Option<T>)
        requires
            old(self).wf(),
        ensures
            final(self).wf(),
            old(self)@.len() == 0 ==> r is None && final(self)@ == old(self)@,
            old(self)@.len() > 0 ==> r == Some(old(self)@.last()) && final(self)@ == old(
                self,
            )@.drop_last(),
    {
        self.iter.next_back()
    }

    /// Yield the last remaining element, or nothing once exhausted: the same
    /// end as `next`.
    pub fn next_back(&mut self) -> (r: Option<T>)
        requires
            old(self).wf(),
        ensures
            final(self).wf(),
            old(self)@.len() == 0 ==> r is None && final(self)@ == old(self)@,
            old(self)@.len() > 0 ==> r == Some(old(self)@.last()) && final(self)@ == old(
                self,
            )@.drop_last(),
    {
        self.iter.next_back()
    }

    /// How many elements are left: exact.
    pub fn size_hint(&self) -> (r: (usize, Option<usize>))
        requires
            self.wf(),
        ensures
            r.0 == self@.len(),
            r.1 == Some(r.0),
    {
        self.iter.size_hint()
    }
}

} // verus!
