//! The optional value of the Scry `core` library.

use vstd::prelude::*;

verus! {

/// A value that may be absent.
#[derive(Clone, Copy)]
pub enum Optional<T> {
    Present(T),
    Absent,
}

impl<T> Optional<T> {
    /// Whether a value is present.
    pub fn is_some(&self) -> (r: bool)
        ensures
            r == (*self is Present),
    {
        match self {
            Optional::Present(_) => true,
            Optional::Absent => false,
        }
    }

    /// Whether no value is present.
    pub fn is_none(&self) -> (r: bool)
        ensures
            r == (*self is Absent),
    {
        match self {
            Optional::Present(_) => false,
            Optional::Absent => true,
        }
    }

    /// The value, which must be present: taking it from an absent one panics.
    pub fn unwrap(self) -> (t: T)
        requires
            self is Present,
        ensures
            self == Optional::Present(t),
    {
        match self {
            Optional::Present(t) => t,
            Optional::Absent => vstd::pervasive::unreached(),
        }
    }
}

} // verus!
