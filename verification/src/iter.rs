use crate::array::Vec;
use crate::raw::RawVec;
use vstd::prelude::*;

verus! {

/// Taking the first element off a sequence: the element, if there is one,
/// and what is left.
pub open spec fn take_front<T>(s: Seq<T>) -> (Option<T>, Seq<T>) {
    if s.len() == 0 {
        (None, s)
    } else {
        (Some(s.first()), s.drop_first())
    }
}

/// Taking the last element off a sequence: the element, if there is one,
/// and what is left.
pub open spec fn take_back<T>(s: Seq<T>) -> (Option<T>, Seq<T>) {
    if s.len() == 0 {
        (None, s)
    } else {
        (Some(s.last()), s.drop_last())
    }
}

/// Taking the first position off a range of positions, given by its first
/// position and the one after its last: the position, if the range is not
/// empty, and what is left.
pub open spec fn span_front(span: (nat, nat)) -> (Option<nat>, (nat, nat)) {
    if span.0 < span.1 {
        (Some(span.0), (span.0 + 1, span.1))
    } else {
        (None, span)
    }
}

/// Taking the last position off a range of positions: the position, if the
/// range is not empty, and what is left.
pub open spec fn span_back(span: (nat, nat)) -> (Option<nat>, (nat, nat)) {
    if span.0 < span.1 {
        (Some((span.1 - 1) as nat), (span.0, (span.1 - 1) as nat))
    } else {
        (None, span)
    }
}

/// The slots after the one at `taken`, if any, has been made uninitialized.
pub open spec fn without_slot<T>(slots: Seq<Option<T>>, taken: Option<nat>) -> Seq<Option<T>> {
    match taken {
        Some(p) => slots.update(p as int, None),
        None => slots,
    }
}

/// A cursor over a range of slot positions in storage that it does not own.
pub struct RawValIter {
    start: usize,
    end: usize,
}

impl RawValIter {
    /// The remaining range never ends before it starts.
    #[verifier::type_invariant]
    spec fn ordered(&self) -> bool {
        self.start <= self.end
    }

    /// The remaining range: its first position, and the one after its last.
    pub closed spec fn span(&self) -> (nat, nat) {
        (self.start as nat, self.end as nat)
    }


    /// The range is within `buf` and each of its slots is initialized.
    pub open spec fn covers<T: Default>(&self, buf: &RawVec<T>) -> bool {
        &&& self.span().0 <= self.span().1 <= buf@.len()
        &&& forall|i: int| self.span().0 <= i < self.span().1 ==> (#[trigger] buf@[i]) is Some
    }

    /// The elements of `buf` in the remaining range, in order.
    pub open spec fn remaining<T: Default>(&self, buf: &RawVec<T>) -> Seq<T> {
        Seq::new(
            (self.span().1 - self.span().0) as nat,
            |i: int| buf@[self.span().0 + i].unwrap(),
        )
    }

    /// A cursor over all the elements of `slice`.
    pub fn new<T: Default>(slice: &Vec<T>) -> (r: Self)
        ensures
            r.span() == (0nat, slice@.len()),
    {
        RawValIter { start: 0, end: slice.len() }
    }

    /// Takes the first remaining element out of `buf` and steps past its
    /// slot; `None`, and nothing changes, if the range is empty.
    pub fn next<T: Default>(&mut self, buf: &mut RawVec<T>) -> (r: Option<T>)
        requires
            old(self).covers(old(buf)),
        ensures
            final(self).covers(final(buf)),
            (r, final(self).remaining(final(buf))) == take_front(old(self).remaining(old(buf))),
            final(self).span() == span_front(old(self).span()).1,
            final(buf)@ == without_slot(old(buf)@, span_front(old(self).span()).0),
            final(buf).capacity() == old(buf).capacity(),
    {
        if self.start == self.end {
            assert(self.remaining(buf).len() == 0);
            None
        } else {
            let result = buf.read(self.start);
            self.start = self.start + 1;
            assert(self.remaining(buf) =~= old(self).remaining(old(buf)).drop_first());
            Some(result)
        }
    }

    /// The number of remaining elements, as a lower and an upper bound.
    pub fn size_hint(&self) -> (r: (usize, Option<usize>))
        ensures
            self.span().0 <= self.span().1,
            r.0 == self.span().1 - self.span().0,
            r.1 == Some(r.0),
    {
        proof {
            use_type_invariant(self);
        }
        let len: usize = self.end - self.start;
        (len, Some(len))
    }

    /// Takes the last remaining element out of `buf` and steps back before
    /// its slot; `None`, and nothing changes, if the range is empty.
    pub fn next_back<T: Default>(&mut self, buf: &mut RawVec<T>) -> (r: Option<T>)
        requires
            old(self).covers(old(buf)),
        ensures
            final(self).covers(final(buf)),
            (r, final(self).remaining(final(buf))) == take_back(old(self).remaining(old(buf))),
            final(self).span() == span_back(old(self).span()).1,
            final(buf)@ == without_slot(old(buf)@, span_back(old(self).span()).0),
            final(buf).capacity() == old(buf).capacity(),
    {
        if self.start == self.end {
            assert(self.remaining(buf).len() == 0);
            None
        } else {
            self.end = self.end - 1;
            let result = buf.read(self.end);
            assert(self.remaining(buf) =~= old(self).remaining(old(buf)).drop_last());
            Some(result)
        }
    }
}

/// An iterator that owns the buffer of the array it was made from and hands
/// out the elements by value, from either end.
pub struct IntoIter<T: Default> {
    _buf: RawVec<T>,
    iter: RawValIter,
}

impl<T: Default> IntoIter<T> {
    /// The elements not yet handed out, in order.
    pub closed spec fn view(&self) -> Seq<T> {
        self.iter.remaining(&self._buf)
    }

    /// The positions, in the buffer, of the elements not yet handed out:
    /// the first, and the one after the last.
    pub closed spec fn span(&self) -> (nat, nat) {
        self.iter.span()
    }

    /// The buffer is well formed, and exactly the slots in the cursor's
    /// range are initialized.
    pub closed spec fn wf(&self) -> bool {
        &&& self._buf.wf()
        &&& self.iter.covers(&self._buf)
        &&& forall|i: int|
            0 <= i < self._buf@.len() && !(self.iter.span().0 <= i < self.iter.span().1) ==> (
            #[trigger] self._buf@[i]) is None
    }

    /// A well-formed iterator has as many elements left as its range has
    /// positions.
    pub proof fn lemma_span_len(&self)
        requires
            self.wf(),
        ensures
            self.span().0 <= self.span().1,
            self@.len() == self.span().1 - self.span().0,
    {
    }

    /// Puts a buffer and a cursor over it together.
    pub(crate) fn from_parts(buf: RawVec<T>, iter: RawValIter) -> (r: Self)
        requires
            buf.wf(),
            iter.covers(&buf),
            forall|i: int|
                0 <= i < buf@.len() && !(iter.span().0 <= i < iter.span().1) ==> (
                #[trigger] buf@[i]) is None,
        ensures
            r.wf(),
            r@ == iter.remaining(&buf),
            r.span() == iter.span(),
    {
        IntoIter { _buf: buf, iter: iter }
    }

    /// Hands out the first remaining element; `None` when none is left.
    pub fn next(&mut self) -> (r: Option<T>)
        requires
            old(self).wf(),
        ensures
            final(self).wf(),
            (r, final(self)@) == take_front(old(self)@),
            final(self).span() == span_front(old(self).span()).1,
    {
        self.iter.next(&mut self._buf)
    }

    /// The number of remaining elements, as a lower and an upper bound.
    pub fn size_hint(&self) -> (r: (usize, Option<usize>))
        requires
            self.wf(),
        ensures
            r.0 == self@.len(),
            r.1 == Some(r.0),
    {
        self.iter.size_hint()
    }

    /// Hands out the last remaining element; `None` when none is left.
    pub fn next_back(&mut self) -> (r: Option<T>)
        requires
            old(self).wf(),
        ensures
            final(self).wf(),
            (r, final(self)@) == take_back(old(self)@),
            final(self).span() == span_back(old(self).span()).1,
    {
        self.iter.next_back(&mut self._buf)
    }
}

} // verus!
