use crate::growth::{
    grown_capacity, lemma_grown_least, lemma_grown_monotonic, lemma_grown_twice, reaches,
};
use crate::iter::{take_back, IntoIter, RawValIter};
use crate::raw::{empty_block, RawVec, START_CAPACITY};
use vstd::prelude::*;

verus! {

/// A growable array: the first `len` slots of its buffer hold its elements,
/// the rest are uninitialized.
pub struct Vec<T: Default> {
    buf: RawVec<T>,
    len: usize,
}

impl<T: Default> Vec<T> {
    /// The elements, in index order.
    pub closed spec fn view(&self) -> Seq<T> {
        Seq::new(self.len as nat, |i: int| self.buf@[i].unwrap())
    }

    /// The number of slots of the buffer.
    pub closed spec fn capacity(&self) -> nat {
        self.buf.capacity()
    }

    /// The buffer is well formed, the length is within its capacity, exactly
    /// the slots below the length are initialized.
    pub closed spec fn wf(&self) -> bool {
        &&& self.buf.wf()
        &&& self.len <= self.buf.capacity()
        &&& forall|i: int| 0 <= i < self.len ==> (#[trigger] self.buf@[i]) is Some
        &&& forall|i: int| self.len <= i < self.buf.capacity() ==> (#[trigger] self.buf@[i]) is None
    }

    /// A well-formed array holds no more elements than it has slots, and its
    /// capacity was reached from the starting capacity by doubling.
    pub proof fn lemma_wf_bounds(&self)
        requires
            self.wf(),
        ensures
            self@.len() <= self.capacity() <= usize::MAX,
            reaches(START_CAPACITY as nat, self.capacity()),
    {
        self.buf.lemma_capacity_fits();
    }

    /// The block of slots behind the array.
    pub fn ptr(&self) -> (block: &std::vec::Vec<Option<T>>)
        requires
            self.wf(),
        ensures
            block@.len() == self.capacity(),
            block@.take(self@.len() as int) == self@.map_values(|v: T| Some(v)),
            block@.skip(self@.len() as int) == empty_block::<T>(
                (self.capacity() - self@.len()) as nat,
            ),
    {
        let block = self.buf.as_block();
        proof {
            assert(block@.take(self@.len() as int) =~= self@.map_values(|v: T| Some(v)));
            assert(block@.skip(self@.len() as int) =~= empty_block::<T>(
                (self.capacity() - self@.len()) as nat,
            ));
        }
        block
    }

    /// The number of slots of the buffer.
    pub fn cap(&self) -> (c: usize)
        ensures
            c == self.capacity(),
    {
        self.buf.cap()
    }

    /// An empty array of the starting capacity.
    pub fn new() -> (r: Self)
        ensures
            r.wf(),
            r@ == Seq::<T>::empty(),
            r.capacity() == START_CAPACITY,
    {
        let r = Vec { buf: RawVec::new(), len: 0 };
        assert(r@ =~= Seq::<T>::empty());
        r
    }

    /// The number of elements.
    pub fn len(&self) -> (n: usize)
        ensures
            n == self@.len(),
    {
        self.len
    }

    /// Appends `elem`, doubling the capacity first if every slot is in use.
    pub fn push(&mut self, elem: T)
        requires
            old(self).wf(),
            grown_capacity(old(self).capacity(), old(self)@.len() + 1) <= usize::MAX,
        ensures
            final(self).wf(),
            final(self)@ == old(self)@.push(elem),
            final(self).capacity() == grown_capacity(old(self).capacity(), old(self)@.len() + 1),
    {
        proof {
            reveal_with_fuel(grown_capacity, 3);
        }
        if self.len == self.cap() {
            self.buf.grow();
        }
        self.buf.write(self.len, elem);
        self.len += 1;
        assert(self@ =~= old(self)@.push(elem));
    }

    /// Removes the last element and returns it; `None` if the array is empty.
    pub fn pop(&mut self) -> (r: Option<T>)
        requires
            old(self).wf(),
        ensures
            final(self).wf(),
            final(self).capacity() == old(self).capacity(),
            (r, final(self)@) == take_back(old(self)@),
    {
        if self.len == 0 {
            None
        } else {
            self.len -= 1;
            let value = self.buf.read(self.len);
            assert(self@ =~= old(self)@.drop_last());
            Some(value)
        }
    }

    /// Moves every element of `other` to the end of this array, in order;
    /// `other` is left empty and keeps its capacity.
    pub fn append(&mut self, other: &mut Vec<T>)
        requires
            old(self).wf(),
            old(other).wf(),
            grown_capacity(old(self).capacity(), old(self)@.len() + old(other)@.len())
                <= usize::MAX,
        ensures
            final(self).wf(),
            final(other).wf(),
            final(self)@ == old(self)@ + old(other)@,
            final(other)@ == Seq::<T>::empty(),
            final(self).capacity() == grown_capacity(
                old(self).capacity(),
                old(self)@.len() + old(other)@.len(),
            ),
            final(other).capacity() == old(other).capacity(),
    {
        let mut i: usize = 0;
        let olen = other.len();
        let mut drain = Vec::new();
        proof {
            other.lemma_wf_bounds();
            self.lemma_wf_bounds();
            assert(reaches(START_CAPACITY as nat, START_CAPACITY as nat));
        }
        while i < olen
            invariant
                i <= olen == old(other)@.len(),
                other.wf(),
                drain.wf(),
                old(other)@.len() <= old(other).capacity() <= usize::MAX,
                reaches(START_CAPACITY as nat, old(other).capacity()),
                other.capacity() == old(other).capacity(),
                other@ == old(other)@.take(olen - i),
                drain@ == old(other)@.skip(olen - i).reverse(),
                drain.capacity() == grown_capacity(START_CAPACITY as nat, i as nat),
            decreases olen - i,
        {
            proof {
                lemma_grown_twice(START_CAPACITY as nat, i as nat, (i + 1) as nat);
                lemma_grown_least(
                    START_CAPACITY as nat,
                    (i + 1) as nat,
                    old(other).capacity(),
                );
            }
            let elem = other.pop().unwrap();
            drain.push(elem);
            i += 1;
            assert(other@ =~= old(other)@.take(olen - i));
            assert(drain@ =~= old(other)@.skip(olen - i).reverse());
        }
        i = 0;
        assert(other@ =~= Seq::<T>::empty());
        assert(drain@ =~= old(other)@.reverse());
        assert(self@ =~= old(self)@ + old(other)@.take(0));
        while i < olen
            invariant
                i <= olen == old(other)@.len(),
                self.wf(),
                drain.wf(),
                old(self).capacity() > 0,
                grown_capacity(old(self).capacity(), old(self)@.len() + old(other)@.len())
                    <= usize::MAX,
                self@ == old(self)@ + old(other)@.take(i as int),
                drain@ == old(other)@.skip(i as int).reverse(),
                self.capacity() == grown_capacity(
                    old(self).capacity(),
                    old(self)@.len() + i as nat,
                ),
            decreases olen - i,
        {
            proof {
                lemma_grown_twice(
                    old(self).capacity(),
                    old(self)@.len() + i as nat,
                    old(self)@.len() + i as nat + 1,
                );
                lemma_grown_monotonic(
                    old(self).capacity(),
                    old(self)@.len() + i as nat + 1,
                    old(self)@.len() + old(other)@.len(),
                );
            }
            let elem = drain.pop().unwrap();
            self.push(elem);
            i += 1;
            assert(self@ =~= old(self)@ + old(other)@.take(i as int));
            assert(drain@ =~= old(other)@.skip(i as int).reverse());
        }
        assert(old(other)@.take(olen as int) =~= old(other)@);
    }

    /// Puts `elem` at `index`; the elements from `index` on move one place
    /// up. Doubles the capacity first if every slot is in use.
    pub fn insert(&mut self, index: usize, elem: T)
        requires
            old(self).wf(),
            index <= old(self)@.len(),
            grown_capacity(old(self).capacity(), old(self)@.len() + 1) <= usize::MAX,
        ensures
            final(self).wf(),
            final(self)@ == old(self)@.insert(index as int, elem),
            final(self).capacity() == grown_capacity(old(self).capacity(), old(self)@.len() + 1),
    {
        proof {
            reveal_with_fuel(grown_capacity, 3);
        }
        if self.cap() == self.len {
            self.buf.grow();
        }
        if index < self.len {
            self.buf.shift_up(index, self.len - index);
        }
        self.buf.write(index, elem);
        self.len += 1;
        assert(self@ =~= old(self)@.insert(index as int, elem));
    }

    /// Takes out the element at `index` and returns it; the elements after
    /// it move one place down.
    pub fn remove(&mut self, index: usize) -> (elem: T)
        requires
            old(self).wf(),
            index < old(self)@.len(),
        ensures
            final(self).wf(),
            elem == old(self)@[index as int],
            final(self)@ == old(self)@.remove(index as int),
            final(self).capacity() == old(self).capacity(),
    {
        self.len -= 1;
        let result = self.buf.read(index);
        self.buf.shift_down(index, self.len - index);
        assert(self@ =~= old(self)@.remove(index as int));
        result
    }

    /// Turns the array into an iterator over its elements, which takes
    /// over the buffer.
    pub fn into_iter(self) -> (r: IntoIter<T>)
        requires
            self.wf(),
        ensures
            r.wf(),
            r@ == self@,
            r.span() == (0nat, self@.len()),
    {
        let iter = RawValIter::new(&self);
        let buf = self.buf;
        let r = IntoIter::from_parts(buf, iter);
        assert(r@ =~= self@);
        r
    }

    /// The element at `index`, for writing.
    pub fn get_mut(&mut self, index: usize) -> (elem: &mut T)
        requires
            old(self).wf(),
            index < old(self)@.len(),
        ensures
            *elem == old(self)@[index as int],
            final(self).wf(),
            final(self)@ == old(self)@.update(index as int, *final(elem)),
            final(self).capacity() == old(self).capacity(),
    {
        self.buf.peek_mut(index)
    }

    /// The element at `index`.
    pub fn get(&self, index: usize) -> (elem: &T)
        requires
            self.wf(),
            index < self@.len(),
        ensures
            *elem == self@[index as int],
    {
        self.buf.peek(index)
    }
}

impl<T: Default> Default for Vec<T> {
    /// An empty array of the starting capacity.
    fn default() -> (r: Self)
        ensures
            r.wf(),
            r@ == Seq::<T>::empty(),
            r.capacity() == START_CAPACITY,
    {
        Vec::new()
    }
}

} // verus!
