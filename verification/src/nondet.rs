use vstd::prelude::*;

verus! {

/// A value that may stand for any value of its type.
pub trait NonDet {
    /// Some value of the type; which one is up to the implementation.
    fn nondet(self) -> Self;
}

impl NonDet for i8 {
    /// The value itself.
    fn nondet(self) -> (r: Self)
        ensures
            r == self,
    {
        self
    }
}

impl NonDet for u8 {
    /// The value itself.
    fn nondet(self) -> (r: Self)
        ensures
            r == self,
    {
        self
    }
}

impl NonDet for i16 {
    /// The value itself.
    fn nondet(self) -> (r: Self)
        ensures
            r == self,
    {
        self
    }
}

impl NonDet for u16 {
    /// The value itself.
    fn nondet(self) -> (r: Self)
        ensures
            r == self,
    {
        self
    }
}

impl NonDet for i32 {
    /// The value itself.
    fn nondet(self) -> (r: Self)
        ensures
            r == self,
    {
        self
    }
}

impl NonDet for u32 {
    /// The value itself.
    fn nondet(self) -> (r: Self)
        ensures
            r == self,
    {
        self
    }
}

impl NonDet for i64 {
    /// The value itself.
    fn nondet(self) -> (r: Self)
        ensures
            r == self,
    {
        self
    }
}

impl NonDet for u64 {
    /// The value itself.
    fn nondet(self) -> (r: Self)
        ensures
            r == self,
    {
        self
    }
}

} // verus!
