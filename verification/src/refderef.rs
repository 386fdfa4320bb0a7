use std::ops::Deref;
use vstd::prelude::*;

verus! {

/// A pair of values that dereferences to its second one.
pub struct Foo<T> {
    pub a: T,
    pub s: T,
}

impl<T> Deref for Foo<T> {
    type Target = T;

    fn deref(&self) -> (target: &T)
        ensures
            *target == self.s,
    {
        &self.s
    }
}

} // verus!
