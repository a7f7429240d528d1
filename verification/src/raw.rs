use crate::growth::reaches;
use crate::marker::PhantomData;
use vstd::prelude::*;

verus! {

/// The number of slots a fresh buffer starts with.
pub const START_CAPACITY: usize = 32;

/// A block of `count` slots, none of them initialized.
pub open spec fn empty_block<T>(count: nat) -> Seq<Option<T>> {
    Seq::new(count, |i: int| None)
}

/// Obtains a block of `count` uninitialized slots.
pub fn allocate<T>(count: usize) -> (block: std::vec::Vec<Option<T>>)
    ensures
        block@ == empty_block::<T>(count as nat),
{
    let mut block: std::vec::Vec<Option<T>> = std::vec::Vec::with_capacity(count);
    let mut i: usize = 0;
    while i < count
        invariant
            i <= count,
            block@ == empty_block::<T>(i as nat),
        decreases count - i,
    {
        block.push(None);
        i += 1;
        assert(block@ =~= empty_block::<T>(i as nat));
    }
    block
}

/// Obtains a block of `new_size` slots and moves the first `orig_size` slots
/// of `orig` into it, leaving those slots of `orig` uninitialized.
pub fn sized_realloc<T>(
    orig: &mut std::vec::Vec<Option<T>>,
    orig_size: usize,
    new_size: usize,
) -> (block: std::vec::Vec<Option<T>>)
    requires
        orig_size <= old(orig)@.len(),
        orig_size <= new_size,
    ensures
        block@ == old(orig)@.take(orig_size as int) + empty_block::<T>(
            (new_size - orig_size) as nat,
        ),
        final(orig)@ == empty_block::<T>(orig_size as nat) + old(orig)@.skip(orig_size as int),
{
    let mut block: std::vec::Vec<Option<T>> = allocate(new_size);
    let mut i: usize = 0;
    while i < orig_size
        invariant
            i <= orig_size <= new_size,
            orig_size <= old(orig)@.len(),
            orig@.len() == old(orig)@.len(),
            block@.len() == new_size,
            forall|j: int| 0 <= j < i ==> block@[j] == old(orig)@[j],
            forall|j: int| i <= j < new_size ==> block@[j] is None,
            forall|j: int| 0 <= j < i ==> orig@[j] is None,
            forall|j: int| i <= j < orig@.len() ==> orig@[j] == old(orig)@[j],
        decreases orig_size - i,
    {
        let slot = orig[i].take();
        block[i] = slot;
        i += 1;
    }
    assert(block@ =~= old(orig)@.take(orig_size as int) + empty_block::<T>(
        (new_size - orig_size) as nat,
    ));
    assert(orig@ =~= empty_block::<T>(orig_size as nat) + old(orig)@.skip(orig_size as int));
    block
}

/// The sole owner of one block of slots.
pub struct Unique<T: Default> {
    _marker: PhantomData<T>,
    block: std::vec::Vec<Option<T>>,
}

impl<T: Default> Unique<T> {
    /// The slots of the owned block, in order.
    pub closed spec fn view(&self) -> Seq<Option<T>> {
        self.block@
    }

    /// Takes ownership of `block`.
    pub fn new(block: std::vec::Vec<Option<T>>) -> (r: Self)
        ensures
            r@ == block@,
    {
        Unique { block: block, _marker: Default::default() }
    }

    /// The owned block, for reading.
    pub fn as_ptr(&self) -> (block: &std::vec::Vec<Option<T>>)
        ensures
            block@ == self@,
    {
        &self.block
    }
}

/// An owned block of slots together with the number of slots it holds.
pub struct RawVec<T: Default> {
    ptr: Unique<T>,
    cap: usize,
}

impl<T: Default> RawVec<T> {
    /// The slots of the buffer, in order: `Some` where initialized.
    pub closed spec fn view(&self) -> Seq<Option<T>> {
        self.ptr@
    }

    /// The number of slots the buffer is recorded to hold.
    pub closed spec fn capacity(&self) -> nat {
        self.cap as nat
    }

    /// The recorded capacity is the block's size, and it was reached from the
    /// starting capacity by doubling.
    pub open spec fn wf(&self) -> bool {
        &&& self@.len() == self.capacity()
        &&& reaches(START_CAPACITY as nat, self.capacity())
    }

    /// The recorded capacity is a machine word.
    pub proof fn lemma_capacity_fits(&self)
        ensures
            self.capacity() <= usize::MAX,
    {
    }

    /// A buffer of the starting capacity with no slot initialized.
    pub fn new() -> (r: Self)
        ensures
            r.wf(),
            r.capacity() == START_CAPACITY,
            r@ == empty_block::<T>(START_CAPACITY as nat),
    {
        let cap: usize = START_CAPACITY;
        let ptr = Unique::new(allocate(cap));
        RawVec { ptr: ptr, cap: cap }
    }

    /// The block of slots, for reading.
    pub fn as_block(&self) -> (block: &std::vec::Vec<Option<T>>)
        ensures
            block@ == self@,
    {
        self.ptr.as_ptr()
    }

    /// The number of slots.
    pub fn cap(&self) -> (c: usize)
        ensures
            c == self.capacity(),
    {
        self.cap
    }

    /// Doubles the capacity: the slots held so far keep their contents and
    /// as many uninitialized slots follow them.
    pub fn grow(&mut self)
        requires
            old(self).wf(),
            2 * old(self).capacity() <= usize::MAX,
        ensures
            final(self).wf(),
            final(self).capacity() == 2 * old(self).capacity(),
            final(self)@ == old(self)@ + empty_block::<T>(old(self).capacity()),
    {
        let new_cap: usize = 2 * self.cap;
        let block = sized_realloc(&mut self.ptr.block, self.cap, new_cap);
        proof {
            assert(old(self)@.take(old(self).capacity() as int) =~= old(self)@);
        }
        self.ptr = Unique::new(block);
        self.cap = new_cap;
    }

    /// Moves the value out of slot `i`, which becomes uninitialized.
    pub fn read(&mut self, i: usize) -> (value: T)
        requires
            i < old(self)@.len(),
            old(self)@[i as int] is Some,
        ensures
            Some(value) == old(self)@[i as int],
            final(self)@ == old(self)@.update(i as int, None),
            final(self).capacity() == old(self).capacity(),
    {
        let slot = self.ptr.block[i].take();
        slot.unwrap()
    }

    /// Moves `value` into the uninitialized slot `i`.
    pub fn write(&mut self, i: usize, value: T)
        requires
            i < old(self)@.len(),
            old(self)@[i as int] is None,
        ensures
            final(self)@ == old(self)@.update(i as int, Some(value)),
            final(self).capacity() == old(self).capacity(),
    {
        self.ptr.block[i] = Some(value);
    }

    /// Moves the contents of the `count` slots from `from` on one slot up,
    /// the highest first, into the uninitialized slot that follows them;
    /// slot `from` is left uninitialized.
    pub fn shift_up(&mut self, from: usize, count: usize)
        requires
            from + count < old(self)@.len(),
            old(self)@[from + count] is None,
        ensures
            final(self)@ == old(self)@.remove(from + count).insert(from as int, None),
            final(self).capacity() == old(self).capacity(),
    {
        assert(self@.len() == self.ptr.block.len());
        let mut k: usize = count;
        while k > 0
            invariant
                k <= count,
                self@.len() <= usize::MAX,
                from + count < old(self)@.len(),
                self@.len() == old(self)@.len(),
                self.capacity() == old(self).capacity(),
                self@[from + k] is None,
                forall|j: int| 0 <= j < from + k ==> self@[j] == old(self)@[j],
                forall|j: int| from + k < j <= from + count ==> self@[j] == old(self)@[j - 1],
                forall|j: int| from + count < j < self@.len() ==> self@[j] == old(self)@[j],
            decreases k,
        {
            let slot = self.ptr.block[from + k - 1].take();
            self.ptr.block[from + k] = slot;
            k -= 1;
        }
        assert(self@ =~= old(self)@.remove(from + count).insert(from as int, None));
    }

    /// Moves the contents of the `count` slots after `from` one slot down,
    /// the lowest first, into the uninitialized slot `from`; the last of them
    /// is left uninitialized.
    pub fn shift_down(&mut self, from: usize, count: usize)
        requires
            from + count < old(self)@.len(),
            old(self)@[from as int] is None,
        ensures
            final(self)@ == old(self)@.remove(from as int).insert(from + count, None),
            final(self).capacity() == old(self).capacity(),
    {
        assert(self@.len() == self.ptr.block.len());
        let mut k: usize = 0;
        while k < count
            invariant
                k <= count,
                self@.len() <= usize::MAX,
                from + count < old(self)@.len(),
                self@.len() == old(self)@.len(),
                self.capacity() == old(self).capacity(),
                self@[from + k] is None,
                forall|j: int| 0 <= j < from ==> self@[j] == old(self)@[j],
                forall|j: int| from <= j < from + k ==> self@[j] == old(self)@[j + 1],
                forall|j: int| from + k < j < self@.len() ==> self@[j] == old(self)@[j],
            decreases count - k,
        {
            let slot = self.ptr.block[from + k + 1].take();
            self.ptr.block[from + k] = slot;
            k += 1;
        }
        assert(self@ =~= old(self)@.remove(from as int).insert(from + count, None));
    }

    /// The value in the initialized slot `i`, for writing.
    pub fn peek_mut(&mut self, i: usize) -> (value: &mut T)
        requires
            i < old(self)@.len(),
            old(self)@[i as int] is Some,
        ensures
            Some(*value) == old(self)@[i as int],
            final(self)@ == old(self)@.update(i as int, Some(*final(value))),
            final(self).capacity() == old(self).capacity(),
    {
        self.ptr.block[i].as_mut().unwrap()
    }

    /// The value in the initialized slot `i`.
    pub fn peek(&self, i: usize) -> (value: &T)
        requires
            i < self@.len(),
            self@[i as int] is Some,
        ensures
            Some(*value) == self@[i as int],
    {
        self.ptr.block[i].as_ref().unwrap()
    }
}

} // verus!
