//! A minimal Scry program using a `for` loop over a range.

use vstd::prelude::*;

verus! {

/// The entry point.
pub fn _start() -> (r: u32)
    ensures
        r == 80,
{
    fn_loop(2, 40)
}

/// Adds `a` up `b` times, with a `for` loop: the product of `a` and `b`.
pub fn fn_loop(a: u32, b: u32) -> (r: u32)
    requires
        a * b <= u32::MAX,
    ensures
        r == a * b,
{
    let mut acc: u32 = 0;
    for i in 0..b
        invariant
            acc == a * i,
            a * b <= u32::MAX,
    {
        assert(a * (i + 1) <= a * b && a * (i + 1) == a * i + a) by (nonlinear_arith)
            requires
                i < b,
        ;
        acc += a;
    }
    acc
}

} // verus!
