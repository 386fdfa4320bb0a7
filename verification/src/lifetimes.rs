use vstd::prelude::*;

verus! {

/// Returns its argument.
pub fn foo(x: u32) -> (r: u32)
    ensures
        r == x,
{
    x
}

} // verus!
