//! Bounds on products.

use vstd::prelude::*;

verus! {

/// A product of two bounded, non-negative factors is bounded by the product
/// of the bounds.
pub proof fn lemma_mul_bound(a: int, b: int, hi_a: int, hi_b: int)
    requires
        0 <= a <= hi_a,
        0 <= b <= hi_b,
    ensures
        0 <= a * b <= hi_a * hi_b,
{
    assert(0 <= a * b <= hi_a * hi_b) by (nonlinear_arith)
        requires
            0 <= a <= hi_a,
            0 <= b <= hi_b,
    ;
}

} // verus!
