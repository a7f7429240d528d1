use vstd::prelude::*;

verus! {

/// A marker that ties an owner to its element type by holding one default
/// element and a word of padding.
pub struct PhantomData<T: Default> {
    _place_older: T,
    _padding: u64,
}

impl<T: Default> PhantomData<T> {
    /// The padding word.
    pub closed spec fn padding(&self) -> u64 {
        self._padding
    }
}

impl<T: Default> Default for PhantomData<T> {
    fn default() -> (r: Self)
        ensures
            r.padding() == 0,
    {
        PhantomData { _place_older: T::default(), _padding: 0 }
    }
}

} // verus!
