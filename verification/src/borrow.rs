use vstd::prelude::*;

verus! {

/// A fork of a storage snapshot holding one string value.
pub struct Fork {
    pub value: String,
}

impl Fork {
    /// The value held by the fork.
    pub fn value(&self) -> (value: &String)
        ensures
            value@ == self.value@,
    {
        &self.value
    }

    /// Replaces the value held by the fork.
    pub fn set_value(&mut self, value: String)
        ensures
            final(self).value@ == value@,
    {
        self.value = value
    }
}

} // verus!
