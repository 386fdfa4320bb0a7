use num::Integer;
use vstd::prelude::*;

verus! {

/// `num::Integer::div_rem` on `usize`: the quotient and the remainder of
/// `a` divided by `b`, which the crate computes as `(a / b, a % b)`.
/// It panics when `b` is zero.
#[verifier::external_body]
fn div_rem(a: usize, b: usize) -> (qr: (usize, usize))
    requires
        b > 0,
    ensures
        qr.0 == a / b,
        qr.1 == a % b,
{
    a.div_rem(&b)
}

/// `a` divided by `b`, rounded up: the least `q` with `q * b >= a`.
pub fn div_ceil(a: usize, b: usize) -> (q: usize)
    requires
        b > 0,
    ensures
        q * b >= a,
        q * b < a + b,
{
    let (d, r) = div_rem(a, b);
    proof {
        assert(d * b + r == a && 0 <= r < b) by (nonlinear_arith)
            requires
                d == a / b,
                r == a % b,
                b > 0,
        ;
    }
    if r == 0 {
        d
    } else {
        assert(d + 1 <= usize::MAX) by (nonlinear_arith)
            requires
                d * b + r == a,
                0 < r < b,
                a <= usize::MAX,
        ;
        assert((d + 1) * b == d * b + b) by (nonlinear_arith);
        d + 1
    }
}

} // verus!
