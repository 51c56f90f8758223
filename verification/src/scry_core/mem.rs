//! Memory utilities.

use vstd::prelude::*;

verus! {

/// The size of a value of type `T`, in bytes.
pub fn size_of<T>() -> (r: usize)
    ensures
        r as nat == vstd::layout::size_of::<T>(),
{
    core::mem::size_of::<T>()
}

/// The alignment of type `T`, in bytes.
pub fn align_of<T>() -> (r: usize)
    ensures
        r as nat == vstd::layout::align_of::<T>(),
{
    core::mem::align_of::<T>()
}

/// Disposes of a value: its drop glue runs as it goes out of scope.
pub fn drop<T>(_x: T) {
}

/// A wrapper that keeps the compiler from dropping its value.
pub struct ManuallyDrop<T> {
    pub value: T,
}

} // verus!
