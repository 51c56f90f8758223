//! Marker traits of the sized hierarchy and of the compiler's auto traits.

use vstd::prelude::*;

verus! {

/// Types whose values may be behind a pointer, sized or not.
pub trait PointeeSized {}

/// Types whose size can be read from their metadata.
pub trait MetaSized: PointeeSized {}

/// Types that can be unsized to `T`, such as arrays to slices.
pub trait Unsize<T: ?Sized>: PointeeSized {}

/// Types that can be destroyed.
pub trait Destruct {}

/// Tuple types, the argument lists of callables.
pub trait Tuple {}

/// Types whose drop is guaranteed to do nothing.
pub trait BikeshedGuaranteedNoDrop {}

/// Types whose equality is structural, so their constants can be patterns.
pub trait StructuralPartialEq {}

/// Types without interior mutability.
pub trait Freeze {}

impl<'a, T: ?Sized> Freeze for &'a T {}

impl<'a, T: ?Sized> Freeze for &'a mut T {}

} // verus!
