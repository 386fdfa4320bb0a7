use vstd::prelude::*;

verus! {

/// An entry of a map proof.
#[derive(Debug, PartialEq, Eq)]
pub struct OptionalEntry<V> {
    pub value: V,
}

/// A proof for a set of map entries.
#[derive(Debug, PartialEq, Eq)]
pub struct MapProof<V> {
    pub entries: Vec<OptionalEntry<V>>,
}

impl<V> MapProof<V> {
    /// The entries of the proof, in order.
    pub fn entries(&self) -> (entries: &[OptionalEntry<V>])
        ensures
            entries@ == self.entries@,
    {
        self.entries.as_slice()
    }
}

} // verus!
