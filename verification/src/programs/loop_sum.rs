//! A minimal Scry program using `loop`.

use vstd::prelude::*;

verus! {

/// The entry point.
pub fn _start() -> (r: u32)
    ensures
        r == 80,
{
    fn_loop(40, 2)
}

/// Adds `a` up `b` times, with a `loop` that breaks: the product of `a` and `b`.
pub fn fn_loop(a: u32, b: u32) -> (r: u32)
    requires
        a * b <= u32::MAX,
    ensures
        r == a * b,
{
    let mut acc: u32 = 0;
    let mut i: u32 = 0;
    loop
        invariant
            i <= b,
            acc == a * i,
            a * b <= u32::MAX,
        ensures
            acc == a * b,
        decreases b - i,
    {
        if i < b {
            assert(a * (i + 1) <= a * b && a * (i + 1) == a * i + a) by (nonlinear_arith)
                requires
                    i < b,
            ;
            acc += a;
            i += 1;
        } else {
            break;
        }
    }
    acc
}

} // verus!
