use cargo_scry::builtins::{bcmp, memcmp, memcpy, memmove, memset};
use cargo_scry::programs::{hello_scry, iter_loop, loop_sum};
use cargo_scry::scry_core::mem::{align_of, drop, size_of};
use cargo_scry::scry_core::ops::{Add, AddAssign, Div, Neg, Not, Rem, Shl, Shr, Sub};

#[test]
fn test_programs_return_what_scryer_reports() {
    assert_eq!(hello_scry::_start(), 42);
    assert_eq!(hello_scry::add(40, 2), 42);
    assert_eq!(loop_sum::_start(), 80);
    assert_eq!(loop_sum::fn_loop(40, 2), 80);
    assert_eq!(iter_loop::_start(), 80);
    assert_eq!(iter_loop::fn_loop(2, 40), 80);
    assert_eq!(iter_loop::fn_loop(7, 0), 0);
}

#[test]
fn operators_compute_as_rust_does() {
    assert_eq!(Add::add(40u8, 2u8), 42);
    assert_eq!(Sub::sub(-100i8, 28i8), -128);
    assert_eq!(Div::div(-7i32, 2i32), -3);
    assert_eq!(Rem::rem(-7i32, 2i32), -1);
    assert_eq!(Div::div(7i16, -2i16), -3);
    assert_eq!(Rem::rem(7i16, -2i16), 1);
    assert_eq!(Shl::shl(1u32, 31u32), 0x8000_0000);
    assert_eq!(Shr::shr(-8i8, 1i8), -4);
    assert_eq!(Not::not(0u8), 0xff);
    assert_eq!(Not::not(true), false);
    assert_eq!(Neg::neg(5isize), -5);
    let mut x = 250u8;
    AddAssign::add_assign(&mut x, 5u8);
    assert_eq!(x, 255);
}

#[test]
fn memory_utilities() {
    assert_eq!(size_of::<u32>(), 4);
    assert_eq!(align_of::<u16>(), 2);
    drop(vec![1u8]);
}

#[test]
fn memory_functions_copy_set_and_compare() {
    let mut mem = vec![1, 2, 3, 4, 5, 6, 7, 8];
    assert_eq!(memcpy(&mut mem, 4, 0, 3), 4);
    assert_eq!(mem, [1, 2, 3, 4, 1, 2, 3, 8]);

    // Overlapping moves in both directions.
    let mut mem = vec![1, 2, 3, 4, 5, 6];
    memmove(&mut mem, 1, 0, 4);
    assert_eq!(mem, [1, 1, 2, 3, 4, 6]);
    let mut mem = vec![1, 2, 3, 4, 5, 6];
    memmove(&mut mem, 0, 2, 4);
    assert_eq!(mem, [3, 4, 5, 6, 5, 6]);

    let mut mem = vec![0; 4];
    memset(&mut mem, 1, 0x1ff, 2);
    assert_eq!(mem, [0, 0xff, 0xff, 0]);
    memset(&mut mem, 0, -1, 1);
    assert_eq!(mem, [0xff, 0xff, 0xff, 0]);

    let mem = vec![1, 2, 3, 1, 2, 4];
    assert_eq!(memcmp(&mem, 0, 3, 2), 0);
    assert_eq!(memcmp(&mem, 0, 3, 3), -1);
    assert_eq!(memcmp(&mem, 3, 0, 3), 1);
    assert_eq!(bcmp(&mem, 0, 3, 0), 0);
}

use cargo_scry::scry_core::option::Optional;

#[test]
fn optional_values_say_whether_they_are_present() {
    let present: Optional<u32> = Optional::Present(42);
    let absent: Optional<u32> = Optional::Absent;
    assert!(present.is_some());
    assert!(!present.is_none());
    assert!(!absent.is_some());
    assert!(absent.is_none());
    assert_eq!(present.unwrap(), 42);
}

