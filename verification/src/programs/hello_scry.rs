//! A minimal Scry program: `_start` returns the value scryer prints under "Returned Operands".

use vstd::prelude::*;

verus! {

/// The entry point.
pub fn _start() -> (r: u32)
    ensures
        r == 42,
{
    self::add(40, 2)
}

/// The sum of `a` and `b`.
pub fn add(a: u32, b: u32) -> (r: u32)
    requires
        a + b <= u32::MAX,
    ensures
        r == a + b,
{
    a + b
}

} // verus!
