//! The SDK's minimal `core` library for the Scry target, as a verified model: its marker traits,
//! its operator traits with their impls for the integer types it supports, and its memory
//! utilities.

pub mod marker;
pub mod mem;
pub mod ops;
pub mod option;
