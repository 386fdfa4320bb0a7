use vstd::prelude::*;

verus! {

/// An object tracked by a fork.
#[derive(Debug)]
pub struct Object {
    pub val: u32,
}

impl Object {
    /// An object holding `val`.
    pub fn from(val: u32) -> (object: Self)
        ensures
            object.val == val,
    {
        Self { val }
    }

    /// Replaces the value held by the object.
    pub fn update(&mut self, val: u32)
        ensures
            final(self).val == val,
    {
        self.val = val;
    }
}

} // verus!
