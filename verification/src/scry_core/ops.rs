//! Operator traits. Impls exist only for integer types of at most 32 bits (and `usize`,
//! `isize`): arithmetic on wider types is not offered, so it fails to type-check instead of
//! reaching the backend. Where the SDK's arithmetic traps (overflow, division by zero, a shift
//! by the width or more), the operation is not defined and the contract leaves that input out.

use vstd::prelude::*;

verus! {

/// The `+` operator.
pub trait Add<Rhs = Self>: Sized {
    type Output;

    /// Whether the sum is defined: the operation traps where it is not.
    spec fn add_defined(self, rhs: Rhs) -> bool;

    /// The sum.
    spec fn add_value(self, rhs: Rhs) -> Self::Output;

    fn add(self, rhs: Rhs) -> (r: Self::Output)
        requires
            self.add_defined(rhs),
        ensures
            r == self.add_value(rhs),
    ;
}

/// The `-` operator.
pub trait Sub<Rhs = Self>: Sized {
    type Output;

    /// Whether the difference is defined: the operation traps where it is not.
    spec fn sub_defined(self, rhs: Rhs) -> bool;

    /// The difference.
    spec fn sub_value(self, rhs: Rhs) -> Self::Output;

    fn sub(self, rhs: Rhs) -> (r: Self::Output)
        requires
            self.sub_defined(rhs),
        ensures
            r == self.sub_value(rhs),
    ;
}

/// The `*` operator.
pub trait Mul<Rhs = Self>: Sized {
    type Output;

    /// Whether the product is defined: the operation traps where it is not.
    spec fn mul_defined(self, rhs: Rhs) -> bool;

    /// The product.
    spec fn mul_value(self, rhs: Rhs) -> Self::Output;

    fn mul(self, rhs: Rhs) -> (r: Self::Output)
        requires
            self.mul_defined(rhs),
        ensures
            r == self.mul_value(rhs),
    ;
}

/// The `/` operator.
pub trait Div<Rhs = Self>: Sized {
    type Output;

    /// Whether the quotient, rounded toward zero is defined: the operation traps where it is not.
    spec fn div_defined(self, rhs: Rhs) -> bool;

    /// The quotient, rounded toward zero.
    spec fn div_value(self, rhs: Rhs) -> Self::Output;

    fn div(self, rhs: Rhs) -> (r: Self::Output)
        requires
            self.div_defined(rhs),
        ensures
            r == self.div_value(rhs),
    ;
}

/// The `%` operator.
pub trait Rem<Rhs = Self>: Sized {
    type Output;

    /// Whether the remainder, with the sign of the dividend is defined: the operation traps where it is not.
    spec fn rem_defined(self, rhs: Rhs) -> bool;

    /// The remainder, with the sign of the dividend.
    spec fn rem_value(self, rhs: Rhs) -> Self::Output;

    fn rem(self, rhs: Rhs) -> (r: Self::Output)
        requires
            self.rem_defined(rhs),
        ensures
            r == self.rem_value(rhs),
    ;
}

/// The `&` operator.
pub trait BitAnd<Rhs = Self>: Sized {
    type Output;

    /// Whether the bitwise and is defined: the operation traps where it is not.
    spec fn bitand_defined(self, rhs: Rhs) -> bool;

    /// The bitwise and.
    spec fn bitand_value(self, rhs: Rhs) -> Self::Output;

    fn bitand(self, rhs: Rhs) -> (r: Self::Output)
        requires
            self.bitand_defined(rhs),
        ensures
            r == self.bitand_value(rhs),
    ;
}

/// The `|` operator.
pub trait BitOr<Rhs = Self>: Sized {
    type Output;

    /// Whether the bitwise or is defined: the operation traps where it is not.
    spec fn bitor_defined(self, rhs: Rhs) -> bool;

    /// The bitwise or.
    spec fn bitor_value(self, rhs: Rhs) -> Self::Output;

    fn bitor(self, rhs: Rhs) -> (r: Self::Output)
        requires
            self.bitor_defined(rhs),
        ensures
            r == self.bitor_value(rhs),
    ;
}

/// The `^` operator.
pub trait BitXor<Rhs = Self>: Sized {
    type Output;

    /// Whether the bitwise exclusive or is defined: the operation traps where it is not.
    spec fn bitxor_defined(self, rhs: Rhs) -> bool;

    /// The bitwise exclusive or.
    spec fn bitxor_value(self, rhs: Rhs) -> Self::Output;

    fn bitxor(self, rhs: Rhs) -> (r: Self::Output)
        requires
            self.bitxor_defined(rhs),
        ensures
            r == self.bitxor_value(rhs),
    ;
}

/// The `<<` operator.
pub trait Shl<Rhs = Self>: Sized {
    type Output;

    /// Whether the left shift is defined: the operation traps where it is not.
    spec fn shl_defined(self, rhs: Rhs) -> bool;

    /// The left shift.
    spec fn shl_value(self, rhs: Rhs) -> Self::Output;

    fn shl(self, rhs: Rhs) -> (r: Self::Output)
        requires
            self.shl_defined(rhs),
        ensures
            r == self.shl_value(rhs),
    ;
}

/// The `>>` operator.
pub trait Shr<Rhs = Self>: Sized {
    type Output;

    /// Whether the right shift (arithmetic for signed types) is defined: the operation traps where it is not.
    spec fn shr_defined(self, rhs: Rhs) -> bool;

    /// The right shift (arithmetic for signed types).
    spec fn shr_value(self, rhs: Rhs) -> Self::Output;

    fn shr(self, rhs: Rhs) -> (r: Self::Output)
        requires
            self.shr_defined(rhs),
        ensures
            r == self.shr_value(rhs),
    ;
}

/// The `!` operator.
pub trait Not: Sized {
    type Output;

    /// The complement (bitwise for integers, logical for `bool`).
    spec fn not_value(self) -> Self::Output;

    fn not(self) -> (r: Self::Output)
        ensures
            r == self.not_value(),
    ;
}

/// The unary `-` operator.
pub trait Neg: Sized {
    type Output;

    /// Whether the negation is defined: it traps for the most negative value.
    spec fn neg_defined(self) -> bool;

    /// The negation.
    spec fn neg_value(self) -> Self::Output;

    fn neg(self) -> (r: Self::Output)
        requires
            self.neg_defined(),
        ensures
            r == self.neg_value(),
    ;
}

/// The `+=` operator.
pub trait AddAssign<Rhs = Self>: Sized {
    /// Whether the assignment is defined: it traps where it is not.
    spec fn add_assign_defined(self, rhs: Rhs) -> bool;

    /// The value assigned.
    spec fn add_assign_value(self, rhs: Rhs) -> Self;

    fn add_assign(&mut self, rhs: Rhs)
        requires
            old(self).add_assign_defined(rhs),
        ensures
            *final(self) == old(self).add_assign_value(rhs),
    ;
}

/// The `-=` operator.
pub trait SubAssign<Rhs = Self>: Sized {
    /// Whether the assignment is defined: it traps where it is not.
    spec fn sub_assign_defined(self, rhs: Rhs) -> bool;

    /// The value assigned.
    spec fn sub_assign_value(self, rhs: Rhs) -> Self;

    fn sub_assign(&mut self, rhs: Rhs)
        requires
            old(self).sub_assign_defined(rhs),
        ensures
            *final(self) == old(self).sub_assign_value(rhs),
    ;
}

/// The `*=` operator.
pub trait MulAssign<Rhs = Self>: Sized {
    /// Whether the assignment is defined: it traps where it is not.
    spec fn mul_assign_defined(self, rhs: Rhs) -> bool;

    /// The value assigned.
    spec fn mul_assign_value(self, rhs: Rhs) -> Self;

    fn mul_assign(&mut self, rhs: Rhs)
        requires
            old(self).mul_assign_defined(rhs),
        ensures
            *final(self) == old(self).mul_assign_value(rhs),
    ;
}

/// The `/=` operator.
pub trait DivAssign<Rhs = Self>: Sized {
    /// Whether the assignment is defined: it traps where it is not.
    spec fn div_assign_defined(self, rhs: Rhs) -> bool;

    /// The value assigned.
    spec fn div_assign_value(self, rhs: Rhs) -> Self;

    fn div_assign(&mut self, rhs: Rhs)
        requires
            old(self).div_assign_defined(rhs),
        ensures
            *final(self) == old(self).div_assign_value(rhs),
    ;
}

/// The `%=` operator.
pub trait RemAssign<Rhs = Self>: Sized {
    /// Whether the assignment is defined: it traps where it is not.
    spec fn rem_assign_defined(self, rhs: Rhs) -> bool;

    /// The value assigned.
    spec fn rem_assign_value(self, rhs: Rhs) -> Self;

    fn rem_assign(&mut self, rhs: Rhs)
        requires
            old(self).rem_assign_defined(rhs),
        ensures
            *final(self) == old(self).rem_assign_value(rhs),
    ;
}

/// The `&=` operator.
pub trait BitAndAssign<Rhs = Self>: Sized {
    /// Whether the assignment is defined: it traps where it is not.
    spec fn bitand_assign_defined(self, rhs: Rhs) -> bool;

    /// The value assigned.
    spec fn bitand_assign_value(self, rhs: Rhs) -> Self;

    fn bitand_assign(&mut self, rhs: Rhs)
        requires
            old(self).bitand_assign_defined(rhs),
        ensures
            *final(self) == old(self).bitand_assign_value(rhs),
    ;
}

/// The `|=` operator.
pub trait BitOrAssign<Rhs = Self>: Sized {
    /// Whether the assignment is defined: it traps where it is not.
    spec fn bitor_assign_defined(self, rhs: Rhs) -> bool;

    /// The value assigned.
    spec fn bitor_assign_value(self, rhs: Rhs) -> Self;

    fn bitor_assign(&mut self, rhs: Rhs)
        requires
            old(self).bitor_assign_defined(rhs),
        ensures
            *final(self) == old(self).bitor_assign_value(rhs),
    ;
}

/// The `^=` operator.
pub trait BitXorAssign<Rhs = Self>: Sized {
    /// Whether the assignment is defined: it traps where it is not.
    spec fn bitxor_assign_defined(self, rhs: Rhs) -> bool;

    /// The value assigned.
    spec fn bitxor_assign_value(self, rhs: Rhs) -> Self;

    fn bitxor_assign(&mut self, rhs: Rhs)
        requires
            old(self).bitxor_assign_defined(rhs),
        ensures
            *final(self) == old(self).bitxor_assign_value(rhs),
    ;
}

/// The `<<=` operator.
pub trait ShlAssign<Rhs = Self>: Sized {
    /// Whether the assignment is defined: it traps where it is not.
    spec fn shl_assign_defined(self, rhs: Rhs) -> bool;

    /// The value assigned.
    spec fn shl_assign_value(self, rhs: Rhs) -> Self;

    fn shl_assign(&mut self, rhs: Rhs)
        requires
            old(self).shl_assign_defined(rhs),
        ensures
            *final(self) == old(self).shl_assign_value(rhs),
    ;
}

/// The `>>=` operator.
pub trait ShrAssign<Rhs = Self>: Sized {
    /// Whether the assignment is defined: it traps where it is not.
    spec fn shr_assign_defined(self, rhs: Rhs) -> bool;

    /// The value assigned.
    spec fn shr_assign_value(self, rhs: Rhs) -> Self;

    fn shr_assign(&mut self, rhs: Rhs)
        requires
            old(self).shr_assign_defined(rhs),
        ensures
            *final(self) == old(self).shr_assign_value(rhs),
    ;
}

impl Add for u8 {
    type Output = u8;

    open spec fn add_defined(self, rhs: u8) -> bool {
        u8::MIN <= self + rhs <= u8::MAX
    }

    open spec fn add_value(self, rhs: u8) -> u8 {
        (self + rhs) as u8
    }

    fn add(self, rhs: u8) -> (r: u8) {
        self + rhs
    }
}

impl Sub for u8 {
    type Output = u8;

    open spec fn sub_defined(self, rhs: u8) -> bool {
        u8::MIN <= self - rhs <= u8::MAX
    }

    open spec fn sub_value(self, rhs: u8) -> u8 {
        (self - rhs) as u8
    }

    fn sub(self, rhs: u8) -> (r: u8) {
        self - rhs
    }
}

impl Mul for u8 {
    type Output = u8;

    open spec fn mul_defined(self, rhs: u8) -> bool {
        u8::MIN <= self * rhs <= u8::MAX
    }

    open spec fn mul_value(self, rhs: u8) -> u8 {
        (self * rhs) as u8
    }

    fn mul(self, rhs: u8) -> (r: u8) {
        self * rhs
    }
}

impl Div for u8 {
    type Output = u8;

    open spec fn div_defined(self, rhs: u8) -> bool {
        rhs != 0
    }

    open spec fn div_value(self, rhs: u8) -> u8 {
        self / rhs
    }

    fn div(self, rhs: u8) -> (r: u8) {
        self / rhs
    }
}

impl Rem for u8 {
    type Output = u8;

    open spec fn rem_defined(self, rhs: u8) -> bool {
        rhs != 0
    }

    open spec fn rem_value(self, rhs: u8) -> u8 {
        self % rhs
    }

    fn rem(self, rhs: u8) -> (r: u8) {
        self % rhs
    }
}

impl BitAnd for u8 {
    type Output = u8;

    open spec fn bitand_defined(self, rhs: u8) -> bool {
        true
    }

    open spec fn bitand_value(self, rhs: u8) -> u8 {
        self & rhs
    }

    fn bitand(self, rhs: u8) -> (r: u8) {
        self & rhs
    }
}

impl BitOr for u8 {
    type Output = u8;

    open spec fn bitor_defined(self, rhs: u8) -> bool {
        true
    }

    open spec fn bitor_value(self, rhs: u8) -> u8 {
        self | rhs
    }

    fn bitor(self, rhs: u8) -> (r: u8) {
        self | rhs
    }
}

impl BitXor for u8 {
    type Output = u8;

    open spec fn bitxor_defined(self, rhs: u8) -> bool {
        true
    }

    open spec fn bitxor_value(self, rhs: u8) -> u8 {
        self ^ rhs
    }

    fn bitxor(self, rhs: u8) -> (r: u8) {
        self ^ rhs
    }
}

impl Shl for u8 {
    type Output = u8;

    open spec fn shl_defined(self, rhs: u8) -> bool {
        rhs < 8
    }

    open spec fn shl_value(self, rhs: u8) -> u8 {
        self << (rhs as u32)
    }

    fn shl(self, rhs: u8) -> (r: u8) {
        self << rhs
    }
}

impl Shr for u8 {
    type Output = u8;

    open spec fn shr_defined(self, rhs: u8) -> bool {
        rhs < 8
    }

    open spec fn shr_value(self, rhs: u8) -> u8 {
        self >> (rhs as u32)
    }

    fn shr(self, rhs: u8) -> (r: u8) {
        self >> rhs
    }
}

impl Not for u8 {
    type Output = u8;

    open spec fn not_value(self) -> u8 {
        !self
    }

    fn not(self) -> (r: u8) {
        !self
    }
}

impl AddAssign for u8 {
    open spec fn add_assign_defined(self, rhs: u8) -> bool {
        u8::MIN <= self + rhs <= u8::MAX
    }

    open spec fn add_assign_value(self, rhs: u8) -> u8 {
        (self + rhs) as u8
    }

    fn add_assign(&mut self, rhs: u8) {
        *self = *self + rhs;
    }
}

impl SubAssign for u8 {
    open spec fn sub_assign_defined(self, rhs: u8) -> bool {
        u8::MIN <= self - rhs <= u8::MAX
    }

    open spec fn sub_assign_value(self, rhs: u8) -> u8 {
        (self - rhs) as u8
    }

    fn sub_assign(&mut self, rhs: u8) {
        *self = *self - rhs;
    }
}

impl MulAssign for u8 {
    open spec fn mul_assign_defined(self, rhs: u8) -> bool {
        u8::MIN <= self * rhs <= u8::MAX
    }

    open spec fn mul_assign_value(self, rhs: u8) -> u8 {
        (self * rhs) as u8
    }

    fn mul_assign(&mut self, rhs: u8) {
        *self = *self * rhs;
    }
}

impl DivAssign for u8 {
    open spec fn div_assign_defined(self, rhs: u8) -> bool {
        rhs != 0
    }

    open spec fn div_assign_value(self, rhs: u8) -> u8 {
        self / rhs
    }

    fn div_assign(&mut self, rhs: u8) {
        *self = *self / rhs;
    }
}

impl RemAssign for u8 {
    open spec fn rem_assign_defined(self, rhs: u8) -> bool {
        rhs != 0
    }

    open spec fn rem_assign_value(self, rhs: u8) -> u8 {
        self % rhs
    }

    fn rem_assign(&mut self, rhs: u8) {
        *self = *self % rhs;
    }
}

impl BitAndAssign for u8 {
    open spec fn bitand_assign_defined(self, rhs: u8) -> bool {
        true
    }

    open spec fn bitand_assign_value(self, rhs: u8) -> u8 {
        self & rhs
    }

    fn bitand_assign(&mut self, rhs: u8) {
        *self = *self & rhs;
    }
}

impl BitOrAssign for u8 {
    open spec fn bitor_assign_defined(self, rhs: u8) -> bool {
        true
    }

    open spec fn bitor_assign_value(self, rhs: u8) -> u8 {
        self | rhs
    }

    fn bitor_assign(&mut self, rhs: u8) {
        *self = *self | rhs;
    }
}

impl BitXorAssign for u8 {
    open spec fn bitxor_assign_defined(self, rhs: u8) -> bool {
        true
    }

    open spec fn bitxor_assign_value(self, rhs: u8) -> u8 {
        self ^ rhs
    }

    fn bitxor_assign(&mut self, rhs: u8) {
        *self = *self ^ rhs;
    }
}

impl ShlAssign for u8 {
    open spec fn shl_assign_defined(self, rhs: u8) -> bool {
        rhs < 8
    }

    open spec fn shl_assign_value(self, rhs: u8) -> u8 {
        self << (rhs as u32)
    }

    fn shl_assign(&mut self, rhs: u8) {
        *self = *self << rhs;
    }
}

impl ShrAssign for u8 {
    open spec fn shr_assign_defined(self, rhs: u8) -> bool {
        rhs < 8
    }

    open spec fn shr_assign_value(self, rhs: u8) -> u8 {
        self >> (rhs as u32)
    }

    fn shr_assign(&mut self, rhs: u8) {
        *self = *self >> rhs;
    }
}

impl Add for u16 {
    type Output = u16;

    open spec fn add_defined(self, rhs: u16) -> bool {
        u16::MIN <= self + rhs <= u16::MAX
    }

    open spec fn add_value(self, rhs: u16) -> u16 {
        (self + rhs) as u16
    }

    fn add(self, rhs: u16) -> (r: u16) {
        self + rhs
    }
}

impl Sub for u16 {
    type Output = u16;

    open spec fn sub_defined(self, rhs: u16) -> bool {
        u16::MIN <= self - rhs <= u16::MAX
    }

    open spec fn sub_value(self, rhs: u16) -> u16 {
        (self - rhs) as u16
    }

    fn sub(self, rhs: u16) -> (r: u16) {
        self - rhs
    }
}

impl Mul for u16 {
    type Output = u16;

    open spec fn mul_defined(self, rhs: u16) -> bool {
        u16::MIN <= self * rhs <= u16::MAX
    }

    open spec fn mul_value(self, rhs: u16) -> u16 {
        (self * rhs) as u16
    }

    fn mul(self, rhs: u16) -> (r: u16) {
        self * rhs
    }
}

impl Div for u16 {
    type Output = u16;

    open spec fn div_defined(self, rhs: u16) -> bool {
        rhs != 0
    }

    open spec fn div_value(self, rhs: u16) -> u16 {
        self / rhs
    }

    fn div(self, rhs: u16) -> (r: u16) {
        self / rhs
    }
}

impl Rem for u16 {
    type Output = u16;

    open spec fn rem_defined(self, rhs: u16) -> bool {
        rhs != 0
    }

    open spec fn rem_value(self, rhs: u16) -> u16 {
        self % rhs
    }

    fn rem(self, rhs: u16) -> (r: u16) {
        self % rhs
    }
}

impl BitAnd for u16 {
    type Output = u16;

    open spec fn bitand_defined(self, rhs: u16) -> bool {
        true
    }

    open spec fn bitand_value(self, rhs: u16) -> u16 {
        self & rhs
    }

    fn bitand(self, rhs: u16) -> (r: u16) {
        self & rhs
    }
}

impl BitOr for u16 {
    type Output = u16;

    open spec fn bitor_defined(self, rhs: u16) -> bool {
        true
    }

    open spec fn bitor_value(self, rhs: u16) -> u16 {
        self | rhs
    }

    fn bitor(self, rhs: u16) -> (r: u16) {
        self | rhs
    }
}

impl BitXor for u16 {
    type Output = u16;

    open spec fn bitxor_defined(self, rhs: u16) -> bool {
        true
    }

    open spec fn bitxor_value(self, rhs: u16) -> u16 {
        self ^ rhs
    }

    fn bitxor(self, rhs: u16) -> (r: u16) {
        self ^ rhs
    }
}

impl Shl for u16 {
    type Output = u16;

    open spec fn shl_defined(self, rhs: u16) -> bool {
        rhs < 16
    }

    open spec fn shl_value(self, rhs: u16) -> u16 {
        self << (rhs as u32)
    }

    fn shl(self, rhs: u16) -> (r: u16) {
        self << rhs
    }
}

impl Shr for u16 {
    type Output = u16;

    open spec fn shr_defined(self, rhs: u16) -> bool {
        rhs < 16
    }

    open spec fn shr_value(self, rhs: u16) -> u16 {
        self >> (rhs as u32)
    }

    fn shr(self, rhs: u16) -> (r: u16) {
        self >> rhs
    }
}

impl Not for u16 {
    type Output = u16;

    open spec fn not_value(self) -> u16 {
        !self
    }

    fn not(self) -> (r: u16) {
        !self
    }
}

impl AddAssign for u16 {
    open spec fn add_assign_defined(self, rhs: u16) -> bool {
        u16::MIN <= self + rhs <= u16::MAX
    }

    open spec fn add_assign_value(self, rhs: u16) -> u16 {
        (self + rhs) as u16
    }

    fn add_assign(&mut self, rhs: u16) {
        *self = *self + rhs;
    }
}

impl SubAssign for u16 {
    open spec fn sub_assign_defined(self, rhs: u16) -> bool {
        u16::MIN <= self - rhs <= u16::MAX
    }

    open spec fn sub_assign_value(self, rhs: u16) -> u16 {
        (self - rhs) as u16
    }

    fn sub_assign(&mut self, rhs: u16) {
        *self = *self - rhs;
    }
}

impl MulAssign for u16 {
    open spec fn mul_assign_defined(self, rhs: u16) -> bool {
        u16::MIN <= self * rhs <= u16::MAX
    }

    open spec fn mul_assign_value(self, rhs: u16) -> u16 {
        (self * rhs) as u16
    }

    fn mul_assign(&mut self, rhs: u16) {
        *self = *self * rhs;
    }
}

impl DivAssign for u16 {
    open spec fn div_assign_defined(self, rhs: u16) -> bool {
        rhs != 0
    }

    open spec fn div_assign_value(self, rhs: u16) -> u16 {
        self / rhs
    }

    fn div_assign(&mut self, rhs: u16) {
        *self = *self / rhs;
    }
}

impl RemAssign for u16 {
    open spec fn rem_assign_defined(self, rhs: u16) -> bool {
        rhs != 0
    }

    open spec fn rem_assign_value(self, rhs: u16) -> u16 {
        self % rhs
    }

    fn rem_assign(&mut self, rhs: u16) {
        *self = *self % rhs;
    }
}

impl BitAndAssign for u16 {
    open spec fn bitand_assign_defined(self, rhs: u16) -> bool {
        true
    }

    open spec fn bitand_assign_value(self, rhs: u16) -> u16 {
        self & rhs
    }

    fn bitand_assign(&mut self, rhs: u16) {
        *self = *self & rhs;
    }
}

impl BitOrAssign for u16 {
    open spec fn bitor_assign_defined(self, rhs: u16) -> bool {
        true
    }

    open spec fn bitor_assign_value(self, rhs: u16) -> u16 {
        self | rhs
    }

    fn bitor_assign(&mut self, rhs: u16) {
        *self = *self | rhs;
    }
}

impl BitXorAssign for u16 {
    open spec fn bitxor_assign_defined(self, rhs: u16) -> bool {
        true
    }

    open spec fn bitxor_assign_value(self, rhs: u16) -> u16 {
        self ^ rhs
    }

    fn bitxor_assign(&mut self, rhs: u16) {
        *self = *self ^ rhs;
    }
}

impl ShlAssign for u16 {
    open spec fn shl_assign_defined(self, rhs: u16) -> bool {
        rhs < 16
    }

    open spec fn shl_assign_value(self, rhs: u16) -> u16 {
        self << (rhs as u32)
    }

    fn shl_assign(&mut self, rhs: u16) {
        *self = *self << rhs;
    }
}

impl ShrAssign for u16 {
    open spec fn shr_assign_defined(self, rhs: u16) -> bool {
        rhs < 16
    }

    open spec fn shr_assign_value(self, rhs: u16) -> u16 {
        self >> (rhs as u32)
    }

    fn shr_assign(&mut self, rhs: u16) {
        *self = *self >> rhs;
    }
}

impl Add for u32 {
    type Output = u32;

    open spec fn add_defined(self, rhs: u32) -> bool {
        u32::MIN <= self + rhs <= u32::MAX
    }

    open spec fn add_value(self, rhs: u32) -> u32 {
        (self + rhs) as u32
    }

    fn add(self, rhs: u32) -> (r: u32) {
        self + rhs
    }
}

impl Sub for u32 {
    type Output = u32;

    open spec fn sub_defined(self, rhs: u32) -> bool {
        u32::MIN <= self - rhs <= u32::MAX
    }

    open spec fn sub_value(self, rhs: u32) -> u32 {
        (self - rhs) as u32
    }

    fn sub(self, rhs: u32) -> (r: u32) {
        self - rhs
    }
}

impl Mul for u32 {
    type Output = u32;

    open spec fn mul_defined(self, rhs: u32) -> bool {
        u32::MIN <= self * rhs <= u32::MAX
    }

    open spec fn mul_value(self, rhs: u32) -> u32 {
        (self * rhs) as u32
    }

    fn mul(self, rhs: u32) -> (r: u32) {
        self * rhs
    }
}

impl Div for u32 {
    type Output = u32;

    open spec fn div_defined(self, rhs: u32) -> bool {
        rhs != 0
    }

    open spec fn div_value(self, rhs: u32) -> u32 {
        self / rhs
    }

    fn div(self, rhs: u32) -> (r: u32) {
        self / rhs
    }
}

impl Rem for u32 {
    type Output = u32;

    open spec fn rem_defined(self, rhs: u32) -> bool {
        rhs != 0
    }

    open spec fn rem_value(self, rhs: u32) -> u32 {
        self % rhs
    }

    fn rem(self, rhs: u32) -> (r: u32) {
        self % rhs
    }
}

impl BitAnd for u32 {
    type Output = u32;

    open spec fn bitand_defined(self, rhs: u32) -> bool {
        true
    }

    open spec fn bitand_value(self, rhs: u32) -> u32 {
        self & rhs
    }

    fn bitand(self, rhs: u32) -> (r: u32) {
        self & rhs
    }
}

impl BitOr for u32 {
    type Output = u32;

    open spec fn bitor_defined(self, rhs: u32) -> bool {
        true
    }

    open spec fn bitor_value(self, rhs: u32) -> u32 {
        self | rhs
    }

    fn bitor(self, rhs: u32) -> (r: u32) {
        self | rhs
    }
}

impl BitXor for u32 {
    type Output = u32;

    open spec fn bitxor_defined(self, rhs: u32) -> bool {
        true
    }

    open spec fn bitxor_value(self, rhs: u32) -> u32 {
        self ^ rhs
    }

    fn bitxor(self, rhs: u32) -> (r: u32) {
        self ^ rhs
    }
}

impl Shl for u32 {
    type Output = u32;

    open spec fn shl_defined(self, rhs: u32) -> bool {
        rhs < 32
    }

    open spec fn shl_value(self, rhs: u32) -> u32 {
        self << (rhs as u32)
    }

    fn shl(self, rhs: u32) -> (r: u32) {
        self << rhs
    }
}

impl Shr for u32 {
    type Output = u32;

    open spec fn shr_defined(self, rhs: u32) -> bool {
        rhs < 32
    }

    open spec fn shr_value(self, rhs: u32) -> u32 {
        self >> (rhs as u32)
    }

    fn shr(self, rhs: u32) -> (r: u32) {
        self >> rhs
    }
}

impl Not for u32 {
    type Output = u32;

    open spec fn not_value(self) -> u32 {
        !self
    }

    fn not(self) -> (r: u32) {
        !self
    }
}

impl AddAssign for u32 {
    open spec fn add_assign_defined(self, rhs: u32) -> bool {
        u32::MIN <= self + rhs <= u32::MAX
    }

    open spec fn add_assign_value(self, rhs: u32) -> u32 {
        (self + rhs) as u32
    }

    fn add_assign(&mut self, rhs: u32) {
        *self = *self + rhs;
    }
}

impl SubAssign for u32 {
    open spec fn sub_assign_defined(self, rhs: u32) -> bool {
        u32::MIN <= self - rhs <= u32::MAX
    }

    open spec fn sub_assign_value(self, rhs: u32) -> u32 {
        (self - rhs) as u32
    }

    fn sub_assign(&mut self, rhs: u32) {
        *self = *self - rhs;
    }
}

impl MulAssign for u32 {
    open spec fn mul_assign_defined(self, rhs: u32) -> bool {
        u32::MIN <= self * rhs <= u32::MAX
    }

    open spec fn mul_assign_value(self, rhs: u32) -> u32 {
        (self * rhs) as u32
    }

    fn mul_assign(&mut self, rhs: u32) {
        *self = *self * rhs;
    }
}

impl DivAssign for u32 {
    open spec fn div_assign_defined(self, rhs: u32) -> bool {
        rhs != 0
    }

    open spec fn div_assign_value(self, rhs: u32) -> u32 {
        self / rhs
    }

    fn div_assign(&mut self, rhs: u32) {
        *self = *self / rhs;
    }
}

impl RemAssign for u32 {
    open spec fn rem_assign_defined(self, rhs: u32) -> bool {
        rhs != 0
    }

    open spec fn rem_assign_value(self, rhs: u32) -> u32 {
        self % rhs
    }

    fn rem_assign(&mut self, rhs: u32) {
        *self = *self % rhs;
    }
}

impl BitAndAssign for u32 {
    open spec fn bitand_assign_defined(self, rhs: u32) -> bool {
        true
    }

    open spec fn bitand_assign_value(self, rhs: u32) -> u32 {
        self & rhs
    }

    fn bitand_assign(&mut self, rhs: u32) {
        *self = *self & rhs;
    }
}

impl BitOrAssign for u32 {
    open spec fn bitor_assign_defined(self, rhs: u32) -> bool {
        true
    }

    open spec fn bitor_assign_value(self, rhs: u32) -> u32 {
        self | rhs
    }

    fn bitor_assign(&mut self, rhs: u32) {
        *self = *self | rhs;
    }
}

impl BitXorAssign for u32 {
    open spec fn bitxor_assign_defined(self, rhs: u32) -> bool {
        true
    }

    open spec fn bitxor_assign_value(self, rhs: u32) -> u32 {
        self ^ rhs
    }

    fn bitxor_assign(&mut self, rhs: u32) {
        *self = *self ^ rhs;
    }
}

impl ShlAssign for u32 {
    open spec fn shl_assign_defined(self, rhs: u32) -> bool {
        rhs < 32
    }

    open spec fn shl_assign_value(self, rhs: u32) -> u32 {
        self << (rhs as u32)
    }

    fn shl_assign(&mut self, rhs: u32) {
        *self = *self << rhs;
    }
}

impl ShrAssign for u32 {
    open spec fn shr_assign_defined(self, rhs: u32) -> bool {
        rhs < 32
    }

    open spec fn shr_assign_value(self, rhs: u32) -> u32 {
        self >> (rhs as u32)
    }

    fn shr_assign(&mut self, rhs: u32) {
        *self = *self >> rhs;
    }
}

impl Add for usize {
    type Output = usize;

    open spec fn add_defined(self, rhs: usize) -> bool {
        usize::MIN <= self + rhs <= usize::MAX
    }

    open spec fn add_value(self, rhs: usize) -> usize {
        (self + rhs) as usize
    }

    fn add(self, rhs: usize) -> (r: usize) {
        self + rhs
    }
}

impl Sub for usize {
    type Output = usize;

    open spec fn sub_defined(self, rhs: usize) -> bool {
        usize::MIN <= self - rhs <= usize::MAX
    }

    open spec fn sub_value(self, rhs: usize) -> usize {
        (self - rhs) as usize
    }

    fn sub(self, rhs: usize) -> (r: usize) {
        self - rhs
    }
}

impl Mul for usize {
    type Output = usize;

    open spec fn mul_defined(self, rhs: usize) -> bool {
        usize::MIN <= self * rhs <= usize::MAX
    }

    open spec fn mul_value(self, rhs: usize) -> usize {
        (self * rhs) as usize
    }

    fn mul(self, rhs: usize) -> (r: usize) {
        self * rhs
    }
}

impl Div for usize {
    type Output = usize;

    open spec fn div_defined(self, rhs: usize) -> bool {
        rhs != 0
    }

    open spec fn div_value(self, rhs: usize) -> usize {
        self / rhs
    }

    fn div(self, rhs: usize) -> (r: usize) {
        self / rhs
    }
}

impl Rem for usize {
    type Output = usize;

    open spec fn rem_defined(self, rhs: usize) -> bool {
        rhs != 0
    }

    open spec fn rem_value(self, rhs: usize) -> usize {
        self % rhs
    }

    fn rem(self, rhs: usize) -> (r: usize) {
        self % rhs
    }
}

impl BitAnd for usize {
    type Output = usize;

    open spec fn bitand_defined(self, rhs: usize) -> bool {
        true
    }

    open spec fn bitand_value(self, rhs: usize) -> usize {
        self & rhs
    }

    fn bitand(self, rhs: usize) -> (r: usize) {
        self & rhs
    }
}

impl BitOr for usize {
    type Output = usize;

    open spec fn bitor_defined(self, rhs: usize) -> bool {
        true
    }

    open spec fn bitor_value(self, rhs: usize) -> usize {
        self | rhs
    }

    fn bitor(self, rhs: usize) -> (r: usize) {
        self | rhs
    }
}

impl BitXor for usize {
    type Output = usize;

    open spec fn bitxor_defined(self, rhs: usize) -> bool {
        true
    }

    open spec fn bitxor_value(self, rhs: usize) -> usize {
        self ^ rhs
    }

    fn bitxor(self, rhs: usize) -> (r: usize) {
        self ^ rhs
    }
}

impl Shl for usize {
    type Output = usize;

    open spec fn shl_defined(self, rhs: usize) -> bool {
        rhs < usize::BITS
    }

    open spec fn shl_value(self, rhs: usize) -> usize {
        self << (rhs as u32)
    }

    fn shl(self, rhs: usize) -> (r: usize) {
        self << rhs
    }
}

impl Shr for usize {
    type Output = usize;

    open spec fn shr_defined(self, rhs: usize) -> bool {
        rhs < usize::BITS
    }

    open spec fn shr_value(self, rhs: usize) -> usize {
        self >> (rhs as u32)
    }

    fn shr(self, rhs: usize) -> (r: usize) {
        self >> rhs
    }
}

impl Not for usize {
    type Output = usize;

    open spec fn not_value(self) -> usize {
        !self
    }

    fn not(self) -> (r: usize) {
        !self
    }
}

impl AddAssign for usize {
    open spec fn add_assign_defined(self, rhs: usize) -> bool {
        usize::MIN <= self + rhs <= usize::MAX
    }

    open spec fn add_assign_value(self, rhs: usize) -> usize {
        (self + rhs) as usize
    }

    fn add_assign(&mut self, rhs: usize) {
        *self = *self + rhs;
    }
}

impl SubAssign for usize {
    open spec fn sub_assign_defined(self, rhs: usize) -> bool {
        usize::MIN <= self - rhs <= usize::MAX
    }

    open spec fn sub_assign_value(self, rhs: usize) -> usize {
        (self - rhs) as usize
    }

    fn sub_assign(&mut self, rhs: usize) {
        *self = *self - rhs;
    }
}

impl MulAssign for usize {
    open spec fn mul_assign_defined(self, rhs: usize) -> bool {
        usize::MIN <= self * rhs <= usize::MAX
    }

    open spec fn mul_assign_value(self, rhs: usize) -> usize {
        (self * rhs) as usize
    }

    fn mul_assign(&mut self, rhs: usize) {
        *self = *self * rhs;
    }
}

impl DivAssign for usize {
    open spec fn div_assign_defined(self, rhs: usize) -> bool {
        rhs != 0
    }

    open spec fn div_assign_value(self, rhs: usize) -> usize {
        self / rhs
    }

    fn div_assign(&mut self, rhs: usize) {
        *self = *self / rhs;
    }
}

impl RemAssign for usize {
    open spec fn rem_assign_defined(self, rhs: usize) -> bool {
        rhs != 0
    }

    open spec fn rem_assign_value(self, rhs: usize) -> usize {
        self % rhs
    }

    fn rem_assign(&mut self, rhs: usize) {
        *self = *self % rhs;
    }
}

impl BitAndAssign for usize {
    open spec fn bitand_assign_defined(self, rhs: usize) -> bool {
        true
    }

    open spec fn bitand_assign_value(self, rhs: usize) -> usize {
        self & rhs
    }

    fn bitand_assign(&mut self, rhs: usize) {
        *self = *self & rhs;
    }
}

impl BitOrAssign for usize {
    open spec fn bitor_assign_defined(self, rhs: usize) -> bool {
        true
    }

    open spec fn bitor_assign_value(self, rhs: usize) -> usize {
        self | rhs
    }

    fn bitor_assign(&mut self, rhs: usize) {
        *self = *self | rhs;
    }
}

impl BitXorAssign for usize {
    open spec fn bitxor_assign_defined(self, rhs: usize) -> bool {
        true
    }

    open spec fn bitxor_assign_value(self, rhs: usize) -> usize {
        self ^ rhs
    }

    fn bitxor_assign(&mut self, rhs: usize) {
        *self = *self ^ rhs;
    }
}

impl ShlAssign for usize {
    open spec fn shl_assign_defined(self, rhs: usize) -> bool {
        rhs < usize::BITS
    }

    open spec fn shl_assign_value(self, rhs: usize) -> usize {
        self << (rhs as u32)
    }

    fn shl_assign(&mut self, rhs: usize) {
        *self = *self << rhs;
    }
}

impl ShrAssign for usize {
    open spec fn shr_assign_defined(self, rhs: usize) -> bool {
        rhs < usize::BITS
    }

    open spec fn shr_assign_value(self, rhs: usize) -> usize {
        self >> (rhs as u32)
    }

    fn shr_assign(&mut self, rhs: usize) {
        *self = *self >> rhs;
    }
}

impl Add for i8 {
    type Output = i8;

    open spec fn add_defined(self, rhs: i8) -> bool {
        i8::MIN <= self + rhs <= i8::MAX
    }

    open spec fn add_value(self, rhs: i8) -> i8 {
        (self + rhs) as i8
    }

    fn add(self, rhs: i8) -> (r: i8) {
        self + rhs
    }
}

impl Sub for i8 {
    type Output = i8;

    open spec fn sub_defined(self, rhs: i8) -> bool {
        i8::MIN <= self - rhs <= i8::MAX
    }

    open spec fn sub_value(self, rhs: i8) -> i8 {
        (self - rhs) as i8
    }

    fn sub(self, rhs: i8) -> (r: i8) {
        self - rhs
    }
}

impl Mul for i8 {
    type Output = i8;

    open spec fn mul_defined(self, rhs: i8) -> bool {
        i8::MIN <= self * rhs <= i8::MAX
    }

    open spec fn mul_value(self, rhs: i8) -> i8 {
        (self * rhs) as i8
    }

    fn mul(self, rhs: i8) -> (r: i8) {
        self * rhs
    }
}

impl Div for i8 {
    type Output = i8;

    open spec fn div_defined(self, rhs: i8) -> bool {
        rhs != 0 && !(self == i8::MIN && rhs == -1)
    }

    open spec fn div_value(self, rhs: i8) -> i8 {
        if self >= 0 {
            (self / rhs) as i8
        } else {
            (-((-self) / (rhs as int))) as i8
        }
    }

    fn div(self, rhs: i8) -> (r: i8) {
        self / rhs
    }
}

impl Rem for i8 {
    type Output = i8;

    open spec fn rem_defined(self, rhs: i8) -> bool {
        rhs != 0 && !(self == i8::MIN && rhs == -1)
    }

    open spec fn rem_value(self, rhs: i8) -> i8 {
        if self >= 0 {
            (self % rhs) as i8
        } else {
            (-((-self) % (rhs as int))) as i8
        }
    }

    fn rem(self, rhs: i8) -> (r: i8) {
        self % rhs
    }
}

impl BitAnd for i8 {
    type Output = i8;

    open spec fn bitand_defined(self, rhs: i8) -> bool {
        true
    }

    open spec fn bitand_value(self, rhs: i8) -> i8 {
        self & rhs
    }

    fn bitand(self, rhs: i8) -> (r: i8) {
        self & rhs
    }
}

impl BitOr for i8 {
    type Output = i8;

    open spec fn bitor_defined(self, rhs: i8) -> bool {
        true
    }

    open spec fn bitor_value(self, rhs: i8) -> i8 {
        self | rhs
    }

    fn bitor(self, rhs: i8) -> (r: i8) {
        self | rhs
    }
}

impl BitXor for i8 {
    type Output = i8;

    open spec fn bitxor_defined(self, rhs: i8) -> bool {
        true
    }

    open spec fn bitxor_value(self, rhs: i8) -> i8 {
        self ^ rhs
    }

    fn bitxor(self, rhs: i8) -> (r: i8) {
        self ^ rhs
    }
}

impl Shl for i8 {
    type Output = i8;

    open spec fn shl_defined(self, rhs: i8) -> bool {
        0 <= rhs < 8
    }

    open spec fn shl_value(self, rhs: i8) -> i8 {
        self << (rhs as u32)
    }

    fn shl(self, rhs: i8) -> (r: i8) {
        self << rhs
    }
}

impl Shr for i8 {
    type Output = i8;

    open spec fn shr_defined(self, rhs: i8) -> bool {
        0 <= rhs < 8
    }

    open spec fn shr_value(self, rhs: i8) -> i8 {
        self >> (rhs as u32)
    }

    fn shr(self, rhs: i8) -> (r: i8) {
        self >> rhs
    }
}

impl Not for i8 {
    type Output = i8;

    open spec fn not_value(self) -> i8 {
        !self
    }

    fn not(self) -> (r: i8) {
        !self
    }
}

impl Neg for i8 {
    type Output = i8;

    open spec fn neg_defined(self) -> bool {
        self != i8::MIN
    }

    open spec fn neg_value(self) -> i8 {
        (-self) as i8
    }

    fn neg(self) -> (r: i8) {
        -self
    }
}

impl AddAssign for i8 {
    open spec fn add_assign_defined(self, rhs: i8) -> bool {
        i8::MIN <= self + rhs <= i8::MAX
    }

    open spec fn add_assign_value(self, rhs: i8) -> i8 {
        (self + rhs) as i8
    }

    fn add_assign(&mut self, rhs: i8) {
        *self = *self + rhs;
    }
}

impl SubAssign for i8 {
    open spec fn sub_assign_defined(self, rhs: i8) -> bool {
        i8::MIN <= self - rhs <= i8::MAX
    }

    open spec fn sub_assign_value(self, rhs: i8) -> i8 {
        (self - rhs) as i8
    }

    fn sub_assign(&mut self, rhs: i8) {
        *self = *self - rhs;
    }
}

impl MulAssign for i8 {
    open spec fn mul_assign_defined(self, rhs: i8) -> bool {
        i8::MIN <= self * rhs <= i8::MAX
    }

    open spec fn mul_assign_value(self, rhs: i8) -> i8 {
        (self * rhs) as i8
    }

    fn mul_assign(&mut self, rhs: i8) {
        *self = *self * rhs;
    }
}

impl DivAssign for i8 {
    open spec fn div_assign_defined(self, rhs: i8) -> bool {
        rhs != 0 && !(self == i8::MIN && rhs == -1)
    }

    open spec fn div_assign_value(self, rhs: i8) -> i8 {
        if self >= 0 {
            (self / rhs) as i8
        } else {
            (-((-self) / (rhs as int))) as i8
        }
    }

    fn div_assign(&mut self, rhs: i8) {
        *self = *self / rhs;
    }
}

impl RemAssign for i8 {
    open spec fn rem_assign_defined(self, rhs: i8) -> bool {
        rhs != 0 && !(self == i8::MIN && rhs == -1)
    }

    open spec fn rem_assign_value(self, rhs: i8) -> i8 {
        if self >= 0 {
            (self % rhs) as i8
        } else {
            (-((-self) % (rhs as int))) as i8
        }
    }

    fn rem_assign(&mut self, rhs: i8) {
        *self = *self % rhs;
    }
}

impl BitAndAssign for i8 {
    open spec fn bitand_assign_defined(self, rhs: i8) -> bool {
        true
    }

    open spec fn bitand_assign_value(self, rhs: i8) -> i8 {
        self & rhs
    }

    fn bitand_assign(&mut self, rhs: i8) {
        *self = *self & rhs;
    }
}

impl BitOrAssign for i8 {
    open spec fn bitor_assign_defined(self, rhs: i8) -> bool {
        true
    }

    open spec fn bitor_assign_value(self, rhs: i8) -> i8 {
        self | rhs
    }

    fn bitor_assign(&mut self, rhs: i8) {
        *self = *self | rhs;
    }
}

impl BitXorAssign for i8 {
    open spec fn bitxor_assign_defined(self, rhs: i8) -> bool {
        true
    }

    open spec fn bitxor_assign_value(self, rhs: i8) -> i8 {
        self ^ rhs
    }

    fn bitxor_assign(&mut self, rhs: i8) {
        *self = *self ^ rhs;
    }
}

impl ShlAssign for i8 {
    open spec fn shl_assign_defined(self, rhs: i8) -> bool {
        0 <= rhs < 8
    }

    open spec fn shl_assign_value(self, rhs: i8) -> i8 {
        self << (rhs as u32)
    }

    fn shl_assign(&mut self, rhs: i8) {
        *self = *self << rhs;
    }
}

impl ShrAssign for i8 {
    open spec fn shr_assign_defined(self, rhs: i8) -> bool {
        0 <= rhs < 8
    }

    open spec fn shr_assign_value(self, rhs: i8) -> i8 {
        self >> (rhs as u32)
    }

    fn shr_assign(&mut self, rhs: i8) {
        *self = *self >> rhs;
    }
}

impl Add for i16 {
    type Output = i16;

    open spec fn add_defined(self, rhs: i16) -> bool {
        i16::MIN <= self + rhs <= i16::MAX
    }

    open spec fn add_value(self, rhs: i16) -> i16 {
        (self + rhs) as i16
    }

    fn add(self, rhs: i16) -> (r: i16) {
        self + rhs
    }
}

impl Sub for i16 {
    type Output = i16;

    open spec fn sub_defined(self, rhs: i16) -> bool {
        i16::MIN <= self - rhs <= i16::MAX
    }

    open spec fn sub_value(self, rhs: i16) -> i16 {
        (self - rhs) as i16
    }

    fn sub(self, rhs: i16) -> (r: i16) {
        self - rhs
    }
}

impl Mul for i16 {
    type Output = i16;

    open spec fn mul_defined(self, rhs: i16) -> bool {
        i16::MIN <= self * rhs <= i16::MAX
    }

    open spec fn mul_value(self, rhs: i16) -> i16 {
        (self * rhs) as i16
    }

    fn mul(self, rhs: i16) -> (r: i16) {
        self * rhs
    }
}

impl Div for i16 {
    type Output = i16;

    open spec fn div_defined(self, rhs: i16) -> bool {
        rhs != 0 && !(self == i16::MIN && rhs == -1)
    }

    open spec fn div_value(self, rhs: i16) -> i16 {
        if self >= 0 {
            (self / rhs) as i16
        } else {
            (-((-self) / (rhs as int))) as i16
        }
    }

    fn div(self, rhs: i16) -> (r: i16) {
        self / rhs
    }
}

impl Rem for i16 {
    type Output = i16;

    open spec fn rem_defined(self, rhs: i16) -> bool {
        rhs != 0 && !(self == i16::MIN && rhs == -1)
    }

    open spec fn rem_value(self, rhs: i16) -> i16 {
        if self >= 0 {
            (self % rhs) as i16
        } else {
            (-((-self) % (rhs as int))) as i16
        }
    }

    fn rem(self, rhs: i16) -> (r: i16) {
        self % rhs
    }
}

impl BitAnd for i16 {
    type Output = i16;

    open spec fn bitand_defined(self, rhs: i16) -> bool {
        true
    }

    open spec fn bitand_value(self, rhs: i16) -> i16 {
        self & rhs
    }

    fn bitand(self, rhs: i16) -> (r: i16) {
        self & rhs
    }
}

impl BitOr for i16 {
    type Output = i16;

    open spec fn bitor_defined(self, rhs: i16) -> bool {
        true
    }

    open spec fn bitor_value(self, rhs: i16) -> i16 {
        self | rhs
    }

    fn bitor(self, rhs: i16) -> (r: i16) {
        self | rhs
    }
}

impl BitXor for i16 {
    type Output = i16;

    open spec fn bitxor_defined(self, rhs: i16) -> bool {
        true
    }

    open spec fn bitxor_value(self, rhs: i16) -> i16 {
        self ^ rhs
    }

    fn bitxor(self, rhs: i16) -> (r: i16) {
        self ^ rhs
    }
}

impl Shl for i16 {
    type Output = i16;

    open spec fn shl_defined(self, rhs: i16) -> bool {
        0 <= rhs < 16
    }

    open spec fn shl_value(self, rhs: i16) -> i16 {
        self << (rhs as u32)
    }

    fn shl(self, rhs: i16) -> (r: i16) {
        self << rhs
    }
}

impl Shr for i16 {
    type Output = i16;

    open spec fn shr_defined(self, rhs: i16) -> bool {
        0 <= rhs < 16
    }

    open spec fn shr_value(self, rhs: i16) -> i16 {
        self >> (rhs as u32)
    }

    fn shr(self, rhs: i16) -> (r: i16) {
        self >> rhs
    }
}

impl Not for i16 {
    type Output = i16;

    open spec fn not_value(self) -> i16 {
        !self
    }

    fn not(self) -> (r: i16) {
        !self
    }
}

impl Neg for i16 {
    type Output = i16;

    open spec fn neg_defined(self) -> bool {
        self != i16::MIN
    }

    open spec fn neg_value(self) -> i16 {
        (-self) as i16
    }

    fn neg(self) -> (r: i16) {
        -self
    }
}

impl AddAssign for i16 {
    open spec fn add_assign_defined(self, rhs: i16) -> bool {
        i16::MIN <= self + rhs <= i16::MAX
    }

    open spec fn add_assign_value(self, rhs: i16) -> i16 {
        (self + rhs) as i16
    }

    fn add_assign(&mut self, rhs: i16) {
        *self = *self + rhs;
    }
}

impl SubAssign for i16 {
    open spec fn sub_assign_defined(self, rhs: i16) -> bool {
        i16::MIN <= self - rhs <= i16::MAX
    }

    open spec fn sub_assign_value(self, rhs: i16) -> i16 {
        (self - rhs) as i16
    }

    fn sub_assign(&mut self, rhs: i16) {
        *self = *self - rhs;
    }
}

impl MulAssign for i16 {
    open spec fn mul_assign_defined(self, rhs: i16) -> bool {
        i16::MIN <= self * rhs <= i16::MAX
    }

    open spec fn mul_assign_value(self, rhs: i16) -> i16 {
        (self * rhs) as i16
    }

    fn mul_assign(&mut self, rhs: i16) {
        *self = *self * rhs;
    }
}

impl DivAssign for i16 {
    open spec fn div_assign_defined(self, rhs: i16) -> bool {
        rhs != 0 && !(self == i16::MIN && rhs == -1)
    }

    open spec fn div_assign_value(self, rhs: i16) -> i16 {
        if self >= 0 {
            (self / rhs) as i16
        } else {
            (-((-self) / (rhs as int))) as i16
        }
    }

    fn div_assign(&mut self, rhs: i16) {
        *self = *self / rhs;
    }
}

impl RemAssign for i16 {
    open spec fn rem_assign_defined(self, rhs: i16) -> bool {
        rhs != 0 && !(self == i16::MIN && rhs == -1)
    }

    open spec fn rem_assign_value(self, rhs: i16) -> i16 {
        if self >= 0 {
            (self % rhs) as i16
        } else {
            (-((-self) % (rhs as int))) as i16
        }
    }

    fn rem_assign(&mut self, rhs: i16) {
        *self = *self % rhs;
    }
}

impl BitAndAssign for i16 {
    open spec fn bitand_assign_defined(self, rhs: i16) -> bool {
        true
    }

    open spec fn bitand_assign_value(self, rhs: i16) -> i16 {
        self & rhs
    }

    fn bitand_assign(&mut self, rhs: i16) {
        *self = *self & rhs;
    }
}

impl BitOrAssign for i16 {
    open spec fn bitor_assign_defined(self, rhs: i16) -> bool {
        true
    }

    open spec fn bitor_assign_value(self, rhs: i16) -> i16 {
        self | rhs
    }

    fn bitor_assign(&mut self, rhs: i16) {
        *self = *self | rhs;
    }
}

impl BitXorAssign for i16 {
    open spec fn bitxor_assign_defined(self, rhs: i16) -> bool {
        true
    }

    open spec fn bitxor_assign_value(self, rhs: i16) -> i16 {
        self ^ rhs
    }

    fn bitxor_assign(&mut self, rhs: i16) {
        *self = *self ^ rhs;
    }
}

impl ShlAssign for i16 {
    open spec fn shl_assign_defined(self, rhs: i16) -> bool {
        0 <= rhs < 16
    }

    open spec fn shl_assign_value(self, rhs: i16) -> i16 {
        self << (rhs as u32)
    }

    fn shl_assign(&mut self, rhs: i16) {
        *self = *self << rhs;
    }
}

impl ShrAssign for i16 {
    open spec fn shr_assign_defined(self, rhs: i16) -> bool {
        0 <= rhs < 16
    }

    open spec fn shr_assign_value(self, rhs: i16) -> i16 {
        self >> (rhs as u32)
    }

    fn shr_assign(&mut self, rhs: i16) {
        *self = *self >> rhs;
    }
}

impl Add for i32 {
    type Output = i32;

    open spec fn add_defined(self, rhs: i32) -> bool {
        i32::MIN <= self + rhs <= i32::MAX
    }

    open spec fn add_value(self, rhs: i32) -> i32 {
        (self + rhs) as i32
    }

    fn add(self, rhs: i32) -> (r: i32) {
        self + rhs
    }
}

impl Sub for i32 {
    type Output = i32;

    open spec fn sub_defined(self, rhs: i32) -> bool {
        i32::MIN <= self - rhs <= i32::MAX
    }

    open spec fn sub_value(self, rhs: i32) -> i32 {
        (self - rhs) as i32
    }

    fn sub(self, rhs: i32) -> (r: i32) {
        self - rhs
    }
}

impl Mul for i32 {
    type Output = i32;

    open spec fn mul_defined(self, rhs: i32) -> bool {
        i32::MIN <= self * rhs <= i32::MAX
    }

    open spec fn mul_value(self, rhs: i32) -> i32 {
        (self * rhs) as i32
    }

    fn mul(self, rhs: i32) -> (r: i32) {
        self * rhs
    }
}

impl Div for i32 {
    type Output = i32;

    open spec fn div_defined(self, rhs: i32) -> bool {
        rhs != 0 && !(self == i32::MIN && rhs == -1)
    }

    open spec fn div_value(self, rhs: i32) -> i32 {
        if self >= 0 {
            (self / rhs) as i32
        } else {
            (-((-self) / (rhs as int))) as i32
        }
    }

    fn div(self, rhs: i32) -> (r: i32) {
        self / rhs
    }
}

impl Rem for i32 {
    type Output = i32;

    open spec fn rem_defined(self, rhs: i32) -> bool {
        rhs != 0 && !(self == i32::MIN && rhs == -1)
    }

    open spec fn rem_value(self, rhs: i32) -> i32 {
        if self >= 0 {
            (self % rhs) as i32
        } else {
            (-((-self) % (rhs as int))) as i32
        }
    }

    fn rem(self, rhs: i32) -> (r: i32) {
        self % rhs
    }
}

impl BitAnd for i32 {
    type Output = i32;

    open spec fn bitand_defined(self, rhs: i32) -> bool {
        true
    }

    open spec fn bitand_value(self, rhs: i32) -> i32 {
        self & rhs
    }

    fn bitand(self, rhs: i32) -> (r: i32) {
        self & rhs
    }
}

impl BitOr for i32 {
    type Output = i32;

    open spec fn bitor_defined(self, rhs: i32) -> bool {
        true
    }

    open spec fn bitor_value(self, rhs: i32) -> i32 {
        self | rhs
    }

    fn bitor(self, rhs: i32) -> (r: i32) {
        self | rhs
    }
}

impl BitXor for i32 {
    type Output = i32;

    open spec fn bitxor_defined(self, rhs: i32) -> bool {
        true
    }

    open spec fn bitxor_value(self, rhs: i32) -> i32 {
        self ^ rhs
    }

    fn bitxor(self, rhs: i32) -> (r: i32) {
        self ^ rhs
    }
}

impl Shl for i32 {
    type Output = i32;

    open spec fn shl_defined(self, rhs: i32) -> bool {
        0 <= rhs < 32
    }

    open spec fn shl_value(self, rhs: i32) -> i32 {
        self << (rhs as u32)
    }

    fn shl(self, rhs: i32) -> (r: i32) {
        self << rhs
    }
}

impl Shr for i32 {
    type Output = i32;

    open spec fn shr_defined(self, rhs: i32) -> bool {
        0 <= rhs < 32
    }

    open spec fn shr_value(self, rhs: i32) -> i32 {
        self >> (rhs as u32)
    }

    fn shr(self, rhs: i32) -> (r: i32) {
        self >> rhs
    }
}

impl Not for i32 {
    type Output = i32;

    open spec fn not_value(self) -> i32 {
        !self
    }

    fn not(self) -> (r: i32) {
        !self
    }
}

impl Neg for i32 {
    type Output = i32;

    open spec fn neg_defined(self) -> bool {
        self != i32::MIN
    }

    open spec fn neg_value(self) -> i32 {
        (-self) as i32
    }

    fn neg(self) -> (r: i32) {
        -self
    }
}

impl AddAssign for i32 {
    open spec fn add_assign_defined(self, rhs: i32) -> bool {
        i32::MIN <= self + rhs <= i32::MAX
    }

    open spec fn add_assign_value(self, rhs: i32) -> i32 {
        (self + rhs) as i32
    }

    fn add_assign(&mut self, rhs: i32) {
        *self = *self + rhs;
    }
}

impl SubAssign for i32 {
    open spec fn sub_assign_defined(self, rhs: i32) -> bool {
        i32::MIN <= self - rhs <= i32::MAX
    }

    open spec fn sub_assign_value(self, rhs: i32) -> i32 {
        (self - rhs) as i32
    }

    fn sub_assign(&mut self, rhs: i32) {
        *self = *self - rhs;
    }
}

impl MulAssign for i32 {
    open spec fn mul_assign_defined(self, rhs: i32) -> bool {
        i32::MIN <= self * rhs <= i32::MAX
    }

    open spec fn mul_assign_value(self, rhs: i32) -> i32 {
        (self * rhs) as i32
    }

    fn mul_assign(&mut self, rhs: i32) {
        *self = *self * rhs;
    }
}

impl DivAssign for i32 {
    open spec fn div_assign_defined(self, rhs: i32) -> bool {
        rhs != 0 && !(self == i32::MIN && rhs == -1)
    }

    open spec fn div_assign_value(self, rhs: i32) -> i32 {
        if self >= 0 {
            (self / rhs) as i32
        } else {
            (-((-self) / (rhs as int))) as i32
        }
    }

    fn div_assign(&mut self, rhs: i32) {
        *self = *self / rhs;
    }
}

impl RemAssign for i32 {
    open spec fn rem_assign_defined(self, rhs: i32) -> bool {
        rhs != 0 && !(self == i32::MIN && rhs == -1)
    }

    open spec fn rem_assign_value(self, rhs: i32) -> i32 {
        if self >= 0 {
            (self % rhs) as i32
        } else {
            (-((-self) % (rhs as int))) as i32
        }
    }

    fn rem_assign(&mut self, rhs: i32) {
        *self = *self % rhs;
    }
}

impl BitAndAssign for i32 {
    open spec fn bitand_assign_defined(self, rhs: i32) -> bool {
        true
    }

    open spec fn bitand_assign_value(self, rhs: i32) -> i32 {
        self & rhs
    }

    fn bitand_assign(&mut self, rhs: i32) {
        *self = *self & rhs;
    }
}

impl BitOrAssign for i32 {
    open spec fn bitor_assign_defined(self, rhs: i32) -> bool {
        true
    }

    open spec fn bitor_assign_value(self, rhs: i32) -> i32 {
        self | rhs
    }

    fn bitor_assign(&mut self, rhs: i32) {
        *self = *self | rhs;
    }
}

impl BitXorAssign for i32 {
    open spec fn bitxor_assign_defined(self, rhs: i32) -> bool {
        true
    }

    open spec fn bitxor_assign_value(self, rhs: i32) -> i32 {
        self ^ rhs
    }

    fn bitxor_assign(&mut self, rhs: i32) {
        *self = *self ^ rhs;
    }
}

impl ShlAssign for i32 {
    open spec fn shl_assign_defined(self, rhs: i32) -> bool {
        0 <= rhs < 32
    }

    open spec fn shl_assign_value(self, rhs: i32) -> i32 {
        self << (rhs as u32)
    }

    fn shl_assign(&mut self, rhs: i32) {
        *self = *self << rhs;
    }
}

impl ShrAssign for i32 {
    open spec fn shr_assign_defined(self, rhs: i32) -> bool {
        0 <= rhs < 32
    }

    open spec fn shr_assign_value(self, rhs: i32) -> i32 {
        self >> (rhs as u32)
    }

    fn shr_assign(&mut self, rhs: i32) {
        *self = *self >> rhs;
    }
}

impl Add for isize {
    type Output = isize;

    open spec fn add_defined(self, rhs: isize) -> bool {
        isize::MIN <= self + rhs <= isize::MAX
    }

    open spec fn add_value(self, rhs: isize) -> isize {
        (self + rhs) as isize
    }

    fn add(self, rhs: isize) -> (r: isize) {
        self + rhs
    }
}

impl Sub for isize {
    type Output = isize;

    open spec fn sub_defined(self, rhs: isize) -> bool {
        isize::MIN <= self - rhs <= isize::MAX
    }

    open spec fn sub_value(self, rhs: isize) -> isize {
        (self - rhs) as isize
    }

    fn sub(self, rhs: isize) -> (r: isize) {
        self - rhs
    }
}

impl Mul for isize {
    type Output = isize;

    open spec fn mul_defined(self, rhs: isize) -> bool {
        isize::MIN <= self * rhs <= isize::MAX
    }

    open spec fn mul_value(self, rhs: isize) -> isize {
        (self * rhs) as isize
    }

    fn mul(self, rhs: isize) -> (r: isize) {
        self * rhs
    }
}

impl Div for isize {
    type Output = isize;

    open spec fn div_defined(self, rhs: isize) -> bool {
        rhs != 0 && !(self == isize::MIN && rhs == -1)
    }

    open spec fn div_value(self, rhs: isize) -> isize {
        if self >= 0 {
            (self / rhs) as isize
        } else {
            (-((-self) / (rhs as int))) as isize
        }
    }

    fn div(self, rhs: isize) -> (r: isize) {
        self / rhs
    }
}

impl Rem for isize {
    type Output = isize;

    open spec fn rem_defined(self, rhs: isize) -> bool {
        rhs != 0 && !(self == isize::MIN && rhs == -1)
    }

    open spec fn rem_value(self, rhs: isize) -> isize {
        if self >= 0 {
            (self % rhs) as isize
        } else {
            (-((-self) % (rhs as int))) as isize
        }
    }

    fn rem(self, rhs: isize) -> (r: isize) {
        self % rhs
    }
}

impl BitAnd for isize {
    type Output = isize;

    open spec fn bitand_defined(self, rhs: isize) -> bool {
        true
    }

    open spec fn bitand_value(self, rhs: isize) -> isize {
        self & rhs
    }

    fn bitand(self, rhs: isize) -> (r: isize) {
        self & rhs
    }
}

impl BitOr for isize {
    type Output = isize;

    open spec fn bitor_defined(self, rhs: isize) -> bool {
        true
    }

    open spec fn bitor_value(self, rhs: isize) -> isize {
        self | rhs
    }

    fn bitor(self, rhs: isize) -> (r: isize) {
        self | rhs
    }
}

impl BitXor for isize {
    type Output = isize;

    open spec fn bitxor_defined(self, rhs: isize) -> bool {
        true
    }

    open spec fn bitxor_value(self, rhs: isize) -> isize {
        self ^ rhs
    }

    fn bitxor(self, rhs: isize) -> (r: isize) {
        self ^ rhs
    }
}

impl Shl for isize {
    type Output = isize;

    open spec fn shl_defined(self, rhs: isize) -> bool {
        0 <= rhs < isize::BITS
    }

    open spec fn shl_value(self, rhs: isize) -> isize {
        self << (rhs as u32)
    }

    fn shl(self, rhs: isize) -> (r: isize) {
        self << rhs
    }
}

impl Shr for isize {
    type Output = isize;

    open spec fn shr_defined(self, rhs: isize) -> bool {
        0 <= rhs < isize::BITS
    }

    open spec fn shr_value(self, rhs: isize) -> isize {
        self >> (rhs as u32)
    }

    fn shr(self, rhs: isize) -> (r: isize) {
        self >> rhs
    }
}

impl Not for isize {
    type Output = isize;

    open spec fn not_value(self) -> isize {
        !self
    }

    fn not(self) -> (r: isize) {
        !self
    }
}

impl Neg for isize {
    type Output = isize;

    open spec fn neg_defined(self) -> bool {
        self != isize::MIN
    }

    open spec fn neg_value(self) -> isize {
        (-self) as isize
    }

    fn neg(self) -> (r: isize) {
        -self
    }
}

impl AddAssign for isize {
    open spec fn add_assign_defined(self, rhs: isize) -> bool {
        isize::MIN <= self + rhs <= isize::MAX
    }

    open spec fn add_assign_value(self, rhs: isize) -> isize {
        (self + rhs) as isize
    }

    fn add_assign(&mut self, rhs: isize) {
        *self = *self + rhs;
    }
}

impl SubAssign for isize {
    open spec fn sub_assign_defined(self, rhs: isize) -> bool {
        isize::MIN <= self - rhs <= isize::MAX
    }

    open spec fn sub_assign_value(self, rhs: isize) -> isize {
        (self - rhs) as isize
    }

    fn sub_assign(&mut self, rhs: isize) {
        *self = *self - rhs;
    }
}

impl MulAssign for isize {
    open spec fn mul_assign_defined(self, rhs: isize) -> bool {
        isize::MIN <= self * rhs <= isize::MAX
    }

    open spec fn mul_assign_value(self, rhs: isize) -> isize {
        (self * rhs) as isize
    }

    fn mul_assign(&mut self, rhs: isize) {
        *self = *self * rhs;
    }
}

impl DivAssign for isize {
    open spec fn div_assign_defined(self, rhs: isize) -> bool {
        rhs != 0 && !(self == isize::MIN && rhs == -1)
    }

    open spec fn div_assign_value(self, rhs: isize) -> isize {
        if self >= 0 {
            (self / rhs) as isize
        } else {
            (-((-self) / (rhs as int))) as isize
        }
    }

    fn div_assign(&mut self, rhs: isize) {
        *self = *self / rhs;
    }
}

impl RemAssign for isize {
    open spec fn rem_assign_defined(self, rhs: isize) -> bool {
        rhs != 0 && !(self == isize::MIN && rhs == -1)
    }

    open spec fn rem_assign_value(self, rhs: isize) -> isize {
        if self >= 0 {
            (self % rhs) as isize
        } else {
            (-((-self) % (rhs as int))) as isize
        }
    }

    fn rem_assign(&mut self, rhs: isize) {
        *self = *self % rhs;
    }
}

impl BitAndAssign for isize {
    open spec fn bitand_assign_defined(self, rhs: isize) -> bool {
        true
    }

    open spec fn bitand_assign_value(self, rhs: isize) -> isize {
        self & rhs
    }

    fn bitand_assign(&mut self, rhs: isize) {
        *self = *self & rhs;
    }
}

impl BitOrAssign for isize {
    open spec fn bitor_assign_defined(self, rhs: isize) -> bool {
        true
    }

    open spec fn bitor_assign_value(self, rhs: isize) -> isize {
        self | rhs
    }

    fn bitor_assign(&mut self, rhs: isize) {
        *self = *self | rhs;
    }
}

impl BitXorAssign for isize {
    open spec fn bitxor_assign_defined(self, rhs: isize) -> bool {
        true
    }

    open spec fn bitxor_assign_value(self, rhs: isize) -> isize {
        self ^ rhs
    }

    fn bitxor_assign(&mut self, rhs: isize) {
        *self = *self ^ rhs;
    }
}

impl ShlAssign for isize {
    open spec fn shl_assign_defined(self, rhs: isize) -> bool {
        0 <= rhs < isize::BITS
    }

    open spec fn shl_assign_value(self, rhs: isize) -> isize {
        self << (rhs as u32)
    }

    fn shl_assign(&mut self, rhs: isize) {
        *self = *self << rhs;
    }
}

impl ShrAssign for isize {
    open spec fn shr_assign_defined(self, rhs: isize) -> bool {
        0 <= rhs < isize::BITS
    }

    open spec fn shr_assign_value(self, rhs: isize) -> isize {
        self >> (rhs as u32)
    }

    fn shr_assign(&mut self, rhs: isize) {
        *self = *self >> rhs;
    }
}

impl Not for bool {
    type Output = bool;

    open spec fn not_value(self) -> bool {
        !self
    }

    fn not(self) -> (r: bool) {
        !self
    }
}

impl BitAnd for bool {
    type Output = bool;

    open spec fn bitand_defined(self, rhs: bool) -> bool {
        true
    }

    open spec fn bitand_value(self, rhs: bool) -> bool {
        self && rhs
    }

    fn bitand(self, rhs: bool) -> (r: bool) {
        self && rhs
    }
}

impl BitOr for bool {
    type Output = bool;

    open spec fn bitor_defined(self, rhs: bool) -> bool {
        true
    }

    open spec fn bitor_value(self, rhs: bool) -> bool {
        self || rhs
    }

    fn bitor(self, rhs: bool) -> (r: bool) {
        self || rhs
    }
}

impl BitXor for bool {
    type Output = bool;

    open spec fn bitxor_defined(self, rhs: bool) -> bool {
        true
    }

    open spec fn bitxor_value(self, rhs: bool) -> bool {
        self != rhs
    }

    fn bitxor(self, rhs: bool) -> (r: bool) {
        self != rhs
    }
}

impl<'a> BitOr<bool> for &'a bool {
    type Output = bool;

    open spec fn bitor_defined(self, rhs: bool) -> bool {
        true
    }

    open spec fn bitor_value(self, rhs: bool) -> bool {
        *self || rhs
    }

    fn bitor(self, rhs: bool) -> (r: bool) {
        *self || rhs
    }
}

/// Dereferencing with `*`.
pub trait Deref {
    type Target: ?Sized;

    fn deref(&self) -> &Self::Target;
}

/// Dereferencing with `*` for writing.
pub trait DerefMut: Deref {
    fn deref_mut(&mut self) -> &mut Self::Target;
}

impl<'a, T: ?Sized> Deref for &'a T {
    type Target = T;

    fn deref(&self) -> (r: &T)
        ensures
            r == *self,
    {
        *self
    }
}

/// Indexing with `[]`.
pub trait Index<Idx> {
    type Output: ?Sized;

    /// Whether `index` is in bounds: indexing out of bounds traps.
    spec fn index_defined(&self, index: Idx) -> bool;

    fn index(&self, index: Idx) -> &Self::Output
        requires
            self.index_defined(index),
    ;
}

/// Indexing with `[]` for writing.
pub trait IndexMut<Idx>: Index<Idx> {
    fn index_mut(&mut self, index: Idx) -> &mut Self::Output
        requires
            old(self).index_defined(index),
    ;
}

impl<T> Index<usize> for [T] {
    type Output = T;

    open spec fn index_defined(&self, index: usize) -> bool {
        index < self@.len()
    }

    fn index(&self, index: usize) -> (r: &T)
        ensures
            *r == self@[index as int],
    {
        &self[index]
    }
}

impl<T, const N: usize> Index<usize> for [T; N] {
    type Output = T;

    open spec fn index_defined(&self, index: usize) -> bool {
        index < N
    }

    fn index(&self, index: usize) -> (r: &T)
        ensures
            *r == self@[index as int],
    {
        &self[index]
    }
}

/// The size of `v`, whatever its sign.
pub open spec fn magnitude(v: int) -> int {
    if v < 0 {
        -v
    } else {
        v
    }
}

/// Euclid's division: the remainder is never negative and is smaller than the divisor's size.
#[verifier::nonlinear]
proof fn lemma_euclid(x: int, y: int)
    requires
        y != 0,
    ensures
        x == y * (x / y) + x % y,
        0 <= x % y < magnitude(y),
{
}

/// Division of `x` by `y` rounded towards zero, as the signed operators compute it.
proof fn lemma_towards_zero(x: int, y: int)
    requires
        y != 0,
    ensures
        ({
            let q = if x >= 0 {
                x / y
            } else {
                -((-x) / y)
            };
            let r = if x >= 0 {
                x % y
            } else {
                -((-x) % y)
            };
            &&& x == q * y + r
            &&& magnitude(r) < magnitude(y)
            &&& r == 0 || (r < 0) == (x < 0)
            &&& y == 1 ==> q == x
            &&& y == -1 ==> q == -x
            &&& magnitude(y) >= 2 ==> 2 * magnitude(q) <= magnitude(x)
        }),
{
    let a = if x < 0 {
        -x
    } else {
        x
    };
    lemma_euclid(a, y);
    let q0 = a / y;
    let r0 = a % y;
    let my = magnitude(y);
    assert(my >= 2 ==> 2 * magnitude(q0) <= a) by (nonlinear_arith)
        requires
            a == y * q0 + r0,
            0 <= r0 < my,
            a >= 0,
            my == (if y < 0 {
                -y
            } else {
                y
            }),
            magnitude(q0) == (if q0 < 0 {
                -q0
            } else {
                q0
            }),
    ;
    assert(y == 1 ==> q0 == a && r0 == 0) by (nonlinear_arith)
        requires
            a == y * q0 + r0,
            0 <= r0 < my,
            my == (if y < 0 {
                -y
            } else {
                y
            }),
    ;
    assert(y == -1 ==> q0 == -a && r0 == 0) by (nonlinear_arith)
        requires
            a == y * q0 + r0,
            0 <= r0 < my,
            my == (if y < 0 {
                -y
            } else {
                y
            }),
    ;
    if x < 0 {
        assert(x == (-q0) * y + (-r0)) by (nonlinear_arith)
            requires
                a == y * q0 + r0,
                a == -x,
        ;
        assert(magnitude(-q0) == magnitude(q0));
    }
}

/// Dividing by `p` and then by two is dividing by `2 * p`, rounding down in both.
proof fn lemma_halve_quotient(x: int, p: int)
    requires
        p > 0,
    ensures
        (x / p) / 2 == x / (p * 2),
{
    let q = x / p;
    let r = x % p;
    lemma_euclid(x, p);
    let q2 = q / 2;
    let r2 = q % 2;
    lemma_euclid(q, 2);
    assert(x == q2 * (p * 2) + (p * r2 + r)) by (nonlinear_arith)
        requires
            x == p * q + r,
            q == 2 * q2 + r2,
    ;
    assert(0 <= p * r2 + r < p * 2) by (nonlinear_arith)
        requires
            0 <= r2 < 2,
            0 <= r < p,
            p > 0,
    ;
    vstd::arithmetic::div_mod::lemma_fundamental_div_mod_converse(x, p * 2, q2, p * r2 + r);
}

/// Law: `u8` addition, subtraction and multiplication are exact: each is defined exactly where
/// the mathematical result fits in `u8`, and then gives that result.
pub proof fn law_u8_exact_arithmetic(x: u8, y: u8)
    ensures
        x.add_defined(y) <==> u8::MIN <= x + y <= u8::MAX,
        x.add_defined(y) ==> x.add_value(y) as int == x + y,
        x.sub_defined(y) <==> u8::MIN <= x - y <= u8::MAX,
        x.sub_defined(y) ==> x.sub_value(y) as int == x - y,
        x.mul_defined(y) <==> u8::MIN <= x * y <= u8::MAX,
        x.mul_defined(y) ==> x.mul_value(y) as int == x * y,
{
}

/// Law: each compound assignment on `u8` (`+=`, `-=`, `*=`, `/=`, `%=`, `&=`, `|=`, `^=`, `<<=`,
/// `>>=`) is defined where its operator is and stores what the operator gives.
pub proof fn law_u8_assignments_agree(x: u8, y: u8)
    ensures
        x.add_assign_defined(y) == x.add_defined(y) && x.add_assign_value(y) == x.add_value(y),
        x.sub_assign_defined(y) == x.sub_defined(y) && x.sub_assign_value(y) == x.sub_value(y),
        x.mul_assign_defined(y) == x.mul_defined(y) && x.mul_assign_value(y) == x.mul_value(y),
        x.div_assign_defined(y) == x.div_defined(y) && x.div_assign_value(y) == x.div_value(y),
        x.rem_assign_defined(y) == x.rem_defined(y) && x.rem_assign_value(y) == x.rem_value(y),
        x.bitand_assign_defined(y) == x.bitand_defined(y) && x.bitand_assign_value(y)
            == x.bitand_value(y),
        x.bitor_assign_defined(y) == x.bitor_defined(y) && x.bitor_assign_value(y)
            == x.bitor_value(y),
        x.bitxor_assign_defined(y) == x.bitxor_defined(y) && x.bitxor_assign_value(y)
            == x.bitxor_value(y),
        x.shl_assign_defined(y) == x.shl_defined(y) && x.shl_assign_value(y) == x.shl_value(y),
        x.shr_assign_defined(y) == x.shr_defined(y) && x.shr_assign_value(y) == x.shr_value(y),
{
}

/// Law: the bitwise operators on `u8` work bit by bit: `&` and `|` together add up to the two
/// values, `^` is what `|` has that `&` has not, `&` with zero is zero, `|` with zero changes
/// nothing, a value `^` itself is zero, and `!` flips every bit, which is `u8::MAX - x`.
pub proof fn law_u8_bitwise(x: u8, y: u8)
    ensures
        x.bitand_defined(y) && x.bitor_defined(y) && x.bitxor_defined(y),
        x.bitand_value(y) as int + x.bitor_value(y) as int == x + y,
        x.bitxor_value(y) as int == x.bitor_value(y) as int - x.bitand_value(y) as int,
        x.bitand_value(0) == 0,
        x.bitor_value(0) == x,
        x.bitxor_value(x) == 0,
        x.not_value() as int == u8::MAX - x,
{
    assert((x & y) + (x | y) == x + y && (x ^ y) == (x | y) - (x & y) && x & 0 == 0 && x | 0 == x
        && x ^ x == 0 && !x == u8::MAX - x) by (bit_vector);
}

/// Law: shifting a `u8` left is defined for shifts by fewer places than it has bits; by no places
/// it leaves the value as it is, and each further place doubles it, wrapping around in `u8`.
pub proof fn law_u8_shl_doubles(x: u8, s: u8)
    ensures
        x.shl_defined(s) <==> s < 8,
        x.shl_value(0) == x,
        true && s + 1 < 8 ==> x.shl_value((s + 1) as u8) == (x.shl_value(s) * 2) as u8,
{
    assert(x << 0u32 == x) by (bit_vector);
    if true && s + 1 < 8 {
        let y = x << (s as u32);
        let z = x << ((s + 1) as u32);
        assert(z == (y * 2) as u8) by (bit_vector)
            requires
                y == x << (s as u32),
                z == x << ((s + 1) as u32),
                true,
                s + 1 < 8,
        ;
    }
}

proof fn lemma_u8_shr_step(x: u8, s: u8)
    requires
        true,
        s + 1 < 8,
    ensures
        x.shr_value(0) == x,
        x.shr_value((s + 1) as u8) as int == (x.shr_value(s) as int) / 2,
{
    let y = x >> (s as u32);
    let z = x >> ((s + 1) as u32);
    assert(x >> 0u32 == x && 2 * z + (y & 1u8) == y && 0 <= (y & 1u8) <= 1) by (bit_vector)
        requires
            y == x >> (s as u32),
            z == x >> ((s + 1) as u32),
            true,
            s + 1 < 8,
    ;
}

/// Law: shifting a `u8` right is defined for shifts by fewer places than it has bits, and by `s`
/// places it divides the value by `2^s`, rounding towards negative infinity.
#[verifier::spinoff_prover]
pub proof fn law_u8_shr_divides(x: u8, s: u8)
    ensures
        x.shr_defined(s) <==> s < 8,
        s < 8 ==> x.shr_value(s) as int == (x as int) / (vstd::arithmetic::power2::pow2(s as nat) as int),
        s < 8 && x < 0 ==> x.shr_value(s) < 0,
    decreases s,
{
    if s < 8 {
        if s == 0 {
            lemma_u8_shr_step(x, 0);
            vstd::arithmetic::power2::lemma2_to64();
        } else {
            let t = (s - 1) as u8;
            law_u8_shr_divides(x, t);
            lemma_u8_shr_step(x, t);
            vstd::arithmetic::power2::lemma_pow2_pos(t as nat);
            vstd::arithmetic::power2::lemma_pow2_unfold(s as nat);
            lemma_halve_quotient(x as int, vstd::arithmetic::power2::pow2(t as nat) as int);
            assert(vstd::arithmetic::power2::pow2(s as nat) == vstd::arithmetic::power2::pow2(t as nat) * 2);
            assert((t + 1) as u8 == s);
            assert(x.shr_value(s) as int == (x.shr_value(t) as int) / 2);
            assert(x.shr_value(s) as int == ((x as int) / (vstd::arithmetic::power2::pow2(t as nat) as int)) / 2);
        }
        if x < 0 {
            vstd::arithmetic::power2::lemma_pow2_pos(s as nat);
            lemma_euclid(x as int, vstd::arithmetic::power2::pow2(s as nat) as int);
            assert((x as int) / (vstd::arithmetic::power2::pow2(s as nat) as int) < 0) by (nonlinear_arith)
                requires
                    x < 0,
                    vstd::arithmetic::power2::pow2(s as nat) > 0,
                    x as int == vstd::arithmetic::power2::pow2(s as nat) * ((x as int) / (vstd::arithmetic::power2::pow2(s as nat) as int)) + (x as int) % (vstd::arithmetic::power2::pow2(s as nat) as int),
                    (x as int) % (vstd::arithmetic::power2::pow2(s as nat) as int) >= 0,
            ;
        }
    }
}

/// Law: `u8` division and remainder are defined unless the divisor is zero; then the quotient
/// times the divisor plus the remainder is the dividend, and the remainder is smaller than the
/// divisor.
pub proof fn law_u8_div_rem(x: u8, y: u8)
    ensures
        x.div_defined(y) <==> y != 0,
        x.rem_defined(y) <==> y != 0,
        y != 0 ==> x as int == (x.div_value(y) as int) * (y as int) + (x.rem_value(y) as int),
        y != 0 ==> x.rem_value(y) < y,
{
    if y != 0 {
        lemma_euclid(x as int, y as int);
        assert(x.div_value(y) as int == (x as int) / (y as int));
        assert(x.rem_value(y) as int == (x as int) % (y as int));
    }
}

/// Law: `u16` addition, subtraction and multiplication are exact: each is defined exactly where
/// the mathematical result fits in `u16`, and then gives that result.
pub proof fn law_u16_exact_arithmetic(x: u16, y: u16)
    ensures
        x.add_defined(y) <==> u16::MIN <= x + y <= u16::MAX,
        x.add_defined(y) ==> x.add_value(y) as int == x + y,
        x.sub_defined(y) <==> u16::MIN <= x - y <= u16::MAX,
        x.sub_defined(y) ==> x.sub_value(y) as int == x - y,
        x.mul_defined(y) <==> u16::MIN <= x * y <= u16::MAX,
        x.mul_defined(y) ==> x.mul_value(y) as int == x * y,
{
}

/// Law: each compound assignment on `u16` (`+=`, `-=`, `*=`, `/=`, `%=`, `&=`, `|=`, `^=`, `<<=`,
/// `>>=`) is defined where its operator is and stores what the operator gives.
pub proof fn law_u16_assignments_agree(x: u16, y: u16)
    ensures
        x.add_assign_defined(y) == x.add_defined(y) && x.add_assign_value(y) == x.add_value(y),
        x.sub_assign_defined(y) == x.sub_defined(y) && x.sub_assign_value(y) == x.sub_value(y),
        x.mul_assign_defined(y) == x.mul_defined(y) && x.mul_assign_value(y) == x.mul_value(y),
        x.div_assign_defined(y) == x.div_defined(y) && x.div_assign_value(y) == x.div_value(y),
        x.rem_assign_defined(y) == x.rem_defined(y) && x.rem_assign_value(y) == x.rem_value(y),
        x.bitand_assign_defined(y) == x.bitand_defined(y) && x.bitand_assign_value(y)
            == x.bitand_value(y),
        x.bitor_assign_defined(y) == x.bitor_defined(y) && x.bitor_assign_value(y)
            == x.bitor_value(y),
        x.bitxor_assign_defined(y) == x.bitxor_defined(y) && x.bitxor_assign_value(y)
            == x.bitxor_value(y),
        x.shl_assign_defined(y) == x.shl_defined(y) && x.shl_assign_value(y) == x.shl_value(y),
        x.shr_assign_defined(y) == x.shr_defined(y) && x.shr_assign_value(y) == x.shr_value(y),
{
}

/// Law: the bitwise operators on `u16` work bit by bit: `&` and `|` together add up to the two
/// values, `^` is what `|` has that `&` has not, `&` with zero is zero, `|` with zero changes
/// nothing, a value `^` itself is zero, and `!` flips every bit, which is `u16::MAX - x`.
pub proof fn law_u16_bitwise(x: u16, y: u16)
    ensures
        x.bitand_defined(y) && x.bitor_defined(y) && x.bitxor_defined(y),
        x.bitand_value(y) as int + x.bitor_value(y) as int == x + y,
        x.bitxor_value(y) as int == x.bitor_value(y) as int - x.bitand_value(y) as int,
        x.bitand_value(0) == 0,
        x.bitor_value(0) == x,
        x.bitxor_value(x) == 0,
        x.not_value() as int == u16::MAX - x,
{
    assert((x & y) + (x | y) == x + y && (x ^ y) == (x | y) - (x & y) && x & 0 == 0 && x | 0 == x
        && x ^ x == 0 && !x == u16::MAX - x) by (bit_vector);
}

/// Law: shifting a `u16` left is defined for shifts by fewer places than it has bits; by no places
/// it leaves the value as it is, and each further place doubles it, wrapping around in `u16`.
pub proof fn law_u16_shl_doubles(x: u16, s: u16)
    ensures
        x.shl_defined(s) <==> s < 16,
        x.shl_value(0) == x,
        true && s + 1 < 16 ==> x.shl_value((s + 1) as u16) == (x.shl_value(s) * 2) as u16,
{
    assert(x << 0u32 == x) by (bit_vector);
    if true && s + 1 < 16 {
        let y = x << (s as u32);
        let z = x << ((s + 1) as u32);
        assert(z == (y * 2) as u16) by (bit_vector)
            requires
                y == x << (s as u32),
                z == x << ((s + 1) as u32),
                true,
                s + 1 < 16,
        ;
    }
}

proof fn lemma_u16_shr_step(x: u16, s: u16)
    requires
        true,
        s + 1 < 16,
    ensures
        x.shr_value(0) == x,
        x.shr_value((s + 1) as u16) as int == (x.shr_value(s) as int) / 2,
{
    let y = x >> (s as u32);
    let z = x >> ((s + 1) as u32);
    assert(x >> 0u32 == x && 2 * z + (y & 1u16) == y && 0 <= (y & 1u16) <= 1) by (bit_vector)
        requires
            y == x >> (s as u32),
            z == x >> ((s + 1) as u32),
            true,
            s + 1 < 16,
    ;
}

/// Law: shifting a `u16` right is defined for shifts by fewer places than it has bits, and by `s`
/// places it divides the value by `2^s`, rounding towards negative infinity.
#[verifier::spinoff_prover]
pub proof fn law_u16_shr_divides(x: u16, s: u16)
    ensures
        x.shr_defined(s) <==> s < 16,
        s < 16 ==> x.shr_value(s) as int == (x as int) / (vstd::arithmetic::power2::pow2(s as nat) as int),
        s < 16 && x < 0 ==> x.shr_value(s) < 0,
    decreases s,
{
    if s < 16 {
        if s == 0 {
            lemma_u16_shr_step(x, 0);
            vstd::arithmetic::power2::lemma2_to64();
        } else {
            let t = (s - 1) as u16;
            law_u16_shr_divides(x, t);
            lemma_u16_shr_step(x, t);
            vstd::arithmetic::power2::lemma_pow2_pos(t as nat);
            vstd::arithmetic::power2::lemma_pow2_unfold(s as nat);
            lemma_halve_quotient(x as int, vstd::arithmetic::power2::pow2(t as nat) as int);
            assert(vstd::arithmetic::power2::pow2(s as nat) == vstd::arithmetic::power2::pow2(t as nat) * 2);
            assert((t + 1) as u16 == s);
            assert(x.shr_value(s) as int == (x.shr_value(t) as int) / 2);
            assert(x.shr_value(s) as int == ((x as int) / (vstd::arithmetic::power2::pow2(t as nat) as int)) / 2);
        }
        if x < 0 {
            vstd::arithmetic::power2::lemma_pow2_pos(s as nat);
            lemma_euclid(x as int, vstd::arithmetic::power2::pow2(s as nat) as int);
            assert((x as int) / (vstd::arithmetic::power2::pow2(s as nat) as int) < 0) by (nonlinear_arith)
                requires
                    x < 0,
                    vstd::arithmetic::power2::pow2(s as nat) > 0,
                    x as int == vstd::arithmetic::power2::pow2(s as nat) * ((x as int) / (vstd::arithmetic::power2::pow2(s as nat) as int)) + (x as int) % (vstd::arithmetic::power2::pow2(s as nat) as int),
                    (x as int) % (vstd::arithmetic::power2::pow2(s as nat) as int) >= 0,
            ;
        }
    }
}

/// Law: `u16` division and remainder are defined unless the divisor is zero; then the quotient
/// times the divisor plus the remainder is the dividend, and the remainder is smaller than the
/// divisor.
pub proof fn law_u16_div_rem(x: u16, y: u16)
    ensures
        x.div_defined(y) <==> y != 0,
        x.rem_defined(y) <==> y != 0,
        y != 0 ==> x as int == (x.div_value(y) as int) * (y as int) + (x.rem_value(y) as int),
        y != 0 ==> x.rem_value(y) < y,
{
    if y != 0 {
        lemma_euclid(x as int, y as int);
        assert(x.div_value(y) as int == (x as int) / (y as int));
        assert(x.rem_value(y) as int == (x as int) % (y as int));
    }
}

/// Law: `u32` addition, subtraction and multiplication are exact: each is defined exactly where
/// the mathematical result fits in `u32`, and then gives that result.
pub proof fn law_u32_exact_arithmetic(x: u32, y: u32)
    ensures
        x.add_defined(y) <==> u32::MIN <= x + y <= u32::MAX,
        x.add_defined(y) ==> x.add_value(y) as int == x + y,
        x.sub_defined(y) <==> u32::MIN <= x - y <= u32::MAX,
        x.sub_defined(y) ==> x.sub_value(y) as int == x - y,
        x.mul_defined(y) <==> u32::MIN <= x * y <= u32::MAX,
        x.mul_defined(y) ==> x.mul_value(y) as int == x * y,
{
}

/// Law: each compound assignment on `u32` (`+=`, `-=`, `*=`, `/=`, `%=`, `&=`, `|=`, `^=`, `<<=`,
/// `>>=`) is defined where its operator is and stores what the operator gives.
pub proof fn law_u32_assignments_agree(x: u32, y: u32)
    ensures
        x.add_assign_defined(y) == x.add_defined(y) && x.add_assign_value(y) == x.add_value(y),
        x.sub_assign_defined(y) == x.sub_defined(y) && x.sub_assign_value(y) == x.sub_value(y),
        x.mul_assign_defined(y) == x.mul_defined(y) && x.mul_assign_value(y) == x.mul_value(y),
        x.div_assign_defined(y) == x.div_defined(y) && x.div_assign_value(y) == x.div_value(y),
        x.rem_assign_defined(y) == x.rem_defined(y) && x.rem_assign_value(y) == x.rem_value(y),
        x.bitand_assign_defined(y) == x.bitand_defined(y) && x.bitand_assign_value(y)
            == x.bitand_value(y),
        x.bitor_assign_defined(y) == x.bitor_defined(y) && x.bitor_assign_value(y)
            == x.bitor_value(y),
        x.bitxor_assign_defined(y) == x.bitxor_defined(y) && x.bitxor_assign_value(y)
            == x.bitxor_value(y),
        x.shl_assign_defined(y) == x.shl_defined(y) && x.shl_assign_value(y) == x.shl_value(y),
        x.shr_assign_defined(y) == x.shr_defined(y) && x.shr_assign_value(y) == x.shr_value(y),
{
}

/// Law: the bitwise operators on `u32` work bit by bit: `&` and `|` together add up to the two
/// values, `^` is what `|` has that `&` has not, `&` with zero is zero, `|` with zero changes
/// nothing, a value `^` itself is zero, and `!` flips every bit, which is `u32::MAX - x`.
pub proof fn law_u32_bitwise(x: u32, y: u32)
    ensures
        x.bitand_defined(y) && x.bitor_defined(y) && x.bitxor_defined(y),
        x.bitand_value(y) as int + x.bitor_value(y) as int == x + y,
        x.bitxor_value(y) as int == x.bitor_value(y) as int - x.bitand_value(y) as int,
        x.bitand_value(0) == 0,
        x.bitor_value(0) == x,
        x.bitxor_value(x) == 0,
        x.not_value() as int == u32::MAX - x,
{
    assert((x & y) + (x | y) == x + y && (x ^ y) == (x | y) - (x & y) && x & 0 == 0 && x | 0 == x
        && x ^ x == 0 && !x == u32::MAX - x) by (bit_vector);
}

/// Law: shifting a `u32` left is defined for shifts by fewer places than it has bits; by no places
/// it leaves the value as it is, and each further place doubles it, wrapping around in `u32`.
pub proof fn law_u32_shl_doubles(x: u32, s: u32)
    ensures
        x.shl_defined(s) <==> s < 32,
        x.shl_value(0) == x,
        true && s + 1 < 32 ==> x.shl_value((s + 1) as u32) == (x.shl_value(s) * 2) as u32,
{
    assert(x << 0u32 == x) by (bit_vector);
    if true && s + 1 < 32 {
        let y = x << (s as u32);
        let z = x << ((s + 1) as u32);
        assert(z == (y * 2) as u32) by (bit_vector)
            requires
                y == x << (s as u32),
                z == x << ((s + 1) as u32),
                true,
                s + 1 < 32,
        ;
    }
}

proof fn lemma_u32_shr_step(x: u32, s: u32)
    requires
        true,
        s + 1 < 32,
    ensures
        x.shr_value(0) == x,
        x.shr_value((s + 1) as u32) as int == (x.shr_value(s) as int) / 2,
{
    let y = x >> (s as u32);
    let z = x >> ((s + 1) as u32);
    assert(x >> 0u32 == x && 2 * z + (y & 1u32) == y && 0 <= (y & 1u32) <= 1) by (bit_vector)
        requires
            y == x >> (s as u32),
            z == x >> ((s + 1) as u32),
            true,
            s + 1 < 32,
    ;
}

/// Law: shifting a `u32` right is defined for shifts by fewer places than it has bits, and by `s`
/// places it divides the value by `2^s`, rounding towards negative infinity.
#[verifier::spinoff_prover]
pub proof fn law_u32_shr_divides(x: u32, s: u32)
    ensures
        x.shr_defined(s) <==> s < 32,
        s < 32 ==> x.shr_value(s) as int == (x as int) / (vstd::arithmetic::power2::pow2(s as nat) as int),
        s < 32 && x < 0 ==> x.shr_value(s) < 0,
    decreases s,
{
    if s < 32 {
        if s == 0 {
            lemma_u32_shr_step(x, 0);
            vstd::arithmetic::power2::lemma2_to64();
        } else {
            let t = (s - 1) as u32;
            law_u32_shr_divides(x, t);
            lemma_u32_shr_step(x, t);
            vstd::arithmetic::power2::lemma_pow2_pos(t as nat);
            vstd::arithmetic::power2::lemma_pow2_unfold(s as nat);
            lemma_halve_quotient(x as int, vstd::arithmetic::power2::pow2(t as nat) as int);
            assert(vstd::arithmetic::power2::pow2(s as nat) == vstd::arithmetic::power2::pow2(t as nat) * 2);
            assert((t + 1) as u32 == s);
            assert(x.shr_value(s) as int == (x.shr_value(t) as int) / 2);
            assert(x.shr_value(s) as int == ((x as int) / (vstd::arithmetic::power2::pow2(t as nat) as int)) / 2);
        }
        if x < 0 {
            vstd::arithmetic::power2::lemma_pow2_pos(s as nat);
            lemma_euclid(x as int, vstd::arithmetic::power2::pow2(s as nat) as int);
            assert((x as int) / (vstd::arithmetic::power2::pow2(s as nat) as int) < 0) by (nonlinear_arith)
                requires
                    x < 0,
                    vstd::arithmetic::power2::pow2(s as nat) > 0,
                    x as int == vstd::arithmetic::power2::pow2(s as nat) * ((x as int) / (vstd::arithmetic::power2::pow2(s as nat) as int)) + (x as int) % (vstd::arithmetic::power2::pow2(s as nat) as int),
                    (x as int) % (vstd::arithmetic::power2::pow2(s as nat) as int) >= 0,
            ;
        }
    }
}

/// Law: `u32` division and remainder are defined unless the divisor is zero; then the quotient
/// times the divisor plus the remainder is the dividend, and the remainder is smaller than the
/// divisor.
pub proof fn law_u32_div_rem(x: u32, y: u32)
    ensures
        x.div_defined(y) <==> y != 0,
        x.rem_defined(y) <==> y != 0,
        y != 0 ==> x as int == (x.div_value(y) as int) * (y as int) + (x.rem_value(y) as int),
        y != 0 ==> x.rem_value(y) < y,
{
    if y != 0 {
        lemma_euclid(x as int, y as int);
        assert(x.div_value(y) as int == (x as int) / (y as int));
        assert(x.rem_value(y) as int == (x as int) % (y as int));
    }
}

/// Law: `usize` addition, subtraction and multiplication are exact: each is defined exactly where
/// the mathematical result fits in `usize`, and then gives that result.
pub proof fn law_usize_exact_arithmetic(x: usize, y: usize)
    ensures
        x.add_defined(y) <==> usize::MIN <= x + y <= usize::MAX,
        x.add_defined(y) ==> x.add_value(y) as int == x + y,
        x.sub_defined(y) <==> usize::MIN <= x - y <= usize::MAX,
        x.sub_defined(y) ==> x.sub_value(y) as int == x - y,
        x.mul_defined(y) <==> usize::MIN <= x * y <= usize::MAX,
        x.mul_defined(y) ==> x.mul_value(y) as int == x * y,
{
}

/// Law: each compound assignment on `usize` (`+=`, `-=`, `*=`, `/=`, `%=`, `&=`, `|=`, `^=`, `<<=`,
/// `>>=`) is defined where its operator is and stores what the operator gives.
pub proof fn law_usize_assignments_agree(x: usize, y: usize)
    ensures
        x.add_assign_defined(y) == x.add_defined(y) && x.add_assign_value(y) == x.add_value(y),
        x.sub_assign_defined(y) == x.sub_defined(y) && x.sub_assign_value(y) == x.sub_value(y),
        x.mul_assign_defined(y) == x.mul_defined(y) && x.mul_assign_value(y) == x.mul_value(y),
        x.div_assign_defined(y) == x.div_defined(y) && x.div_assign_value(y) == x.div_value(y),
        x.rem_assign_defined(y) == x.rem_defined(y) && x.rem_assign_value(y) == x.rem_value(y),
        x.bitand_assign_defined(y) == x.bitand_defined(y) && x.bitand_assign_value(y)
            == x.bitand_value(y),
        x.bitor_assign_defined(y) == x.bitor_defined(y) && x.bitor_assign_value(y)
            == x.bitor_value(y),
        x.bitxor_assign_defined(y) == x.bitxor_defined(y) && x.bitxor_assign_value(y)
            == x.bitxor_value(y),
        x.shl_assign_defined(y) == x.shl_defined(y) && x.shl_assign_value(y) == x.shl_value(y),
        x.shr_assign_defined(y) == x.shr_defined(y) && x.shr_assign_value(y) == x.shr_value(y),
{
}

/// Law: the bitwise operators on `usize` work bit by bit: `&` and `|` together add up to the two
/// values, `^` is what `|` has that `&` has not, `&` with zero is zero, `|` with zero changes
/// nothing, a value `^` itself is zero, and `!` flips every bit, so a value and its complement add up to all bits set.
pub proof fn law_usize_bitwise(x: usize, y: usize)
    ensures
        x.bitand_defined(y) && x.bitor_defined(y) && x.bitxor_defined(y),
        x.bitand_value(y) as int + x.bitor_value(y) as int == x + y,
        x.bitxor_value(y) as int == x.bitor_value(y) as int - x.bitand_value(y) as int,
        x.bitand_value(0) == 0,
        x.bitor_value(0) == x,
        x.bitxor_value(x) == 0,
        x.not_value() as int + x == (0usize).not_value() as int,
{
    assert((x & y) + (x | y) == x + y && (x ^ y) == (x | y) - (x & y) && x & 0 == 0 && x | 0 == x
        && x ^ x == 0 && !x + x == !0usize) by (bit_vector);
}

/// Law: shifting a `usize` left is defined for shifts by fewer places than it has bits; by no places
/// it leaves the value as it is, and each further place doubles it, wrapping around in `usize`.
pub proof fn law_usize_shl_doubles(x: usize, s: usize)
    ensures
        x.shl_defined(s) <==> s < usize::BITS,
        x.shl_value(0) == x,
        true && s + 1 < usize::BITS ==> x.shl_value((s + 1) as usize) == (x.shl_value(s) * 2) as usize,
{
    assert(x << 0u32 == x) by (bit_vector);
    if true && s + 1 < usize::BITS {
        let y = x << (s as u32);
        let z = x << ((s + 1) as u32);
        assert(z == (y * 2) as usize) by (bit_vector)
            requires
                y == x << (s as u32),
                z == x << ((s + 1) as u32),
                true,
                s + 1 < usize::BITS,
        ;
    }
}

proof fn lemma_usize_shr_step(x: usize, s: usize)
    requires
        true,
        s + 1 < usize::BITS,
    ensures
        x.shr_value(0) == x,
        x.shr_value((s + 1) as usize) as int == (x.shr_value(s) as int) / 2,
{
    let y = x >> (s as u32);
    let z = x >> ((s + 1) as u32);
    assert(x >> 0u32 == x && 2 * z + (y & 1usize) == y && 0 <= (y & 1usize) <= 1) by (bit_vector)
        requires
            y == x >> (s as u32),
            z == x >> ((s + 1) as u32),
            true,
            s + 1 < usize::BITS,
    ;
}

/// Law: shifting a `usize` right is defined for shifts by fewer places than it has bits, and by `s`
/// places it divides the value by `2^s`, rounding towards negative infinity.
#[verifier::spinoff_prover]
pub proof fn law_usize_shr_divides(x: usize, s: usize)
    ensures
        x.shr_defined(s) <==> s < usize::BITS,
        s < usize::BITS ==> x.shr_value(s) as int == (x as int) / (vstd::arithmetic::power2::pow2(s as nat) as int),
        s < usize::BITS && x < 0 ==> x.shr_value(s) < 0,
    decreases s,
{
    if s < usize::BITS {
        if s == 0 {
            lemma_usize_shr_step(x, 0);
            vstd::arithmetic::power2::lemma2_to64();
        } else {
            let t = (s - 1) as usize;
            law_usize_shr_divides(x, t);
            lemma_usize_shr_step(x, t);
            vstd::arithmetic::power2::lemma_pow2_pos(t as nat);
            vstd::arithmetic::power2::lemma_pow2_unfold(s as nat);
            lemma_halve_quotient(x as int, vstd::arithmetic::power2::pow2(t as nat) as int);
            assert(vstd::arithmetic::power2::pow2(s as nat) == vstd::arithmetic::power2::pow2(t as nat) * 2);
            assert((t + 1) as usize == s);
            assert(x.shr_value(s) as int == (x.shr_value(t) as int) / 2);
            assert(x.shr_value(s) as int == ((x as int) / (vstd::arithmetic::power2::pow2(t as nat) as int)) / 2);
        }
        if x < 0 {
            vstd::arithmetic::power2::lemma_pow2_pos(s as nat);
            lemma_euclid(x as int, vstd::arithmetic::power2::pow2(s as nat) as int);
            assert((x as int) / (vstd::arithmetic::power2::pow2(s as nat) as int) < 0) by (nonlinear_arith)
                requires
                    x < 0,
                    vstd::arithmetic::power2::pow2(s as nat) > 0,
                    x as int == vstd::arithmetic::power2::pow2(s as nat) * ((x as int) / (vstd::arithmetic::power2::pow2(s as nat) as int)) + (x as int) % (vstd::arithmetic::power2::pow2(s as nat) as int),
                    (x as int) % (vstd::arithmetic::power2::pow2(s as nat) as int) >= 0,
            ;
        }
    }
}

/// Law: `usize` division and remainder are defined unless the divisor is zero; then the quotient
/// times the divisor plus the remainder is the dividend, and the remainder is smaller than the
/// divisor.
pub proof fn law_usize_div_rem(x: usize, y: usize)
    ensures
        x.div_defined(y) <==> y != 0,
        x.rem_defined(y) <==> y != 0,
        y != 0 ==> x as int == (x.div_value(y) as int) * (y as int) + (x.rem_value(y) as int),
        y != 0 ==> x.rem_value(y) < y,
{
    if y != 0 {
        lemma_euclid(x as int, y as int);
        assert(x.div_value(y) as int == (x as int) / (y as int));
        assert(x.rem_value(y) as int == (x as int) % (y as int));
    }
}

/// Law: `i8` addition, subtraction and multiplication are exact: each is defined exactly where
/// the mathematical result fits in `i8`, and then gives that result.
pub proof fn law_i8_exact_arithmetic(x: i8, y: i8)
    ensures
        x.add_defined(y) <==> i8::MIN <= x + y <= i8::MAX,
        x.add_defined(y) ==> x.add_value(y) as int == x + y,
        x.sub_defined(y) <==> i8::MIN <= x - y <= i8::MAX,
        x.sub_defined(y) ==> x.sub_value(y) as int == x - y,
        x.mul_defined(y) <==> i8::MIN <= x * y <= i8::MAX,
        x.mul_defined(y) ==> x.mul_value(y) as int == x * y,
{
}

/// Law: each compound assignment on `i8` (`+=`, `-=`, `*=`, `/=`, `%=`, `&=`, `|=`, `^=`, `<<=`,
/// `>>=`) is defined where its operator is and stores what the operator gives.
pub proof fn law_i8_assignments_agree(x: i8, y: i8)
    ensures
        x.add_assign_defined(y) == x.add_defined(y) && x.add_assign_value(y) == x.add_value(y),
        x.sub_assign_defined(y) == x.sub_defined(y) && x.sub_assign_value(y) == x.sub_value(y),
        x.mul_assign_defined(y) == x.mul_defined(y) && x.mul_assign_value(y) == x.mul_value(y),
        x.div_assign_defined(y) == x.div_defined(y) && x.div_assign_value(y) == x.div_value(y),
        x.rem_assign_defined(y) == x.rem_defined(y) && x.rem_assign_value(y) == x.rem_value(y),
        x.bitand_assign_defined(y) == x.bitand_defined(y) && x.bitand_assign_value(y)
            == x.bitand_value(y),
        x.bitor_assign_defined(y) == x.bitor_defined(y) && x.bitor_assign_value(y)
            == x.bitor_value(y),
        x.bitxor_assign_defined(y) == x.bitxor_defined(y) && x.bitxor_assign_value(y)
            == x.bitxor_value(y),
        x.shl_assign_defined(y) == x.shl_defined(y) && x.shl_assign_value(y) == x.shl_value(y),
        x.shr_assign_defined(y) == x.shr_defined(y) && x.shr_assign_value(y) == x.shr_value(y),
{
}

/// Law: the bitwise operators on `i8` work bit by bit: `&` and `|` together add up to the two
/// values, `^` is what `|` has that `&` has not, `&` with zero is zero, `|` with zero changes
/// nothing, a value `^` itself is zero, and `!` flips every bit, which is `-x - 1`.
pub proof fn law_i8_bitwise(x: i8, y: i8)
    ensures
        x.bitand_defined(y) && x.bitor_defined(y) && x.bitxor_defined(y),
        x.bitand_value(y) as int + x.bitor_value(y) as int == x + y,
        x.bitxor_value(y) as int == x.bitor_value(y) as int - x.bitand_value(y) as int,
        x.bitand_value(0) == 0,
        x.bitor_value(0) == x,
        x.bitxor_value(x) == 0,
        x.not_value() as int == -x - 1,
{
    assert((x & y) + (x | y) == x + y && (x ^ y) == (x | y) - (x & y) && x & 0 == 0 && x | 0 == x
        && x ^ x == 0 && !x == -x - 1) by (bit_vector);
}

/// Law: shifting a `i8` left is defined for shifts by fewer places than it has bits; by no places
/// it leaves the value as it is, and each further place doubles it, wrapping around in `i8`.
pub proof fn law_i8_shl_doubles(x: i8, s: i8)
    ensures
        x.shl_defined(s) <==> 0 <= s < 8,
        x.shl_value(0) == x,
        0 <= s && s + 1 < 8 ==> x.shl_value((s + 1) as i8) == (x.shl_value(s) * 2) as i8,
{
    assert(x << 0u32 == x) by (bit_vector);
    if 0 <= s && s + 1 < 8 {
        let y = x << (s as u32);
        let z = x << ((s + 1) as u32);
        assert(z == (y * 2) as i8) by (bit_vector)
            requires
                y == x << (s as u32),
                z == x << ((s + 1) as u32),
                0 <= s,
                s + 1 < 8,
        ;
    }
}

proof fn lemma_i8_shr_step(x: i8, s: i8)
    requires
        0 <= s,
        s + 1 < 8,
    ensures
        x.shr_value(0) == x,
        x.shr_value((s + 1) as i8) as int == (x.shr_value(s) as int) / 2,
{
    let y = x >> (s as u32);
    let z = x >> ((s + 1) as u32);
    assert(x >> 0u32 == x && 2 * z + (y & 1i8) == y && 0 <= (y & 1i8) <= 1) by (bit_vector)
        requires
            y == x >> (s as u32),
            z == x >> ((s + 1) as u32),
            0 <= s,
            s + 1 < 8,
    ;
}

/// Law: shifting a `i8` right is defined for shifts by fewer places than it has bits, and by `s`
/// places it divides the value by `2^s`, rounding towards negative infinity: the shift is arithmetic, so a negative value stays negative.
#[verifier::spinoff_prover]
pub proof fn law_i8_shr_divides(x: i8, s: i8)
    ensures
        x.shr_defined(s) <==> 0 <= s < 8,
        0 <= s < 8 ==> x.shr_value(s) as int == (x as int) / (vstd::arithmetic::power2::pow2(s as nat) as int),
        0 <= s < 8 && x < 0 ==> x.shr_value(s) < 0,
    decreases s,
{
    if 0 <= s < 8 {
        if s == 0 {
            lemma_i8_shr_step(x, 0);
            vstd::arithmetic::power2::lemma2_to64();
        } else {
            let t = (s - 1) as i8;
            law_i8_shr_divides(x, t);
            lemma_i8_shr_step(x, t);
            vstd::arithmetic::power2::lemma_pow2_pos(t as nat);
            vstd::arithmetic::power2::lemma_pow2_unfold(s as nat);
            lemma_halve_quotient(x as int, vstd::arithmetic::power2::pow2(t as nat) as int);
            assert(vstd::arithmetic::power2::pow2(s as nat) == vstd::arithmetic::power2::pow2(t as nat) * 2);
            assert((t + 1) as i8 == s);
            assert(x.shr_value(s) as int == (x.shr_value(t) as int) / 2);
            assert(x.shr_value(s) as int == ((x as int) / (vstd::arithmetic::power2::pow2(t as nat) as int)) / 2);
        }
        if x < 0 {
            vstd::arithmetic::power2::lemma_pow2_pos(s as nat);
            lemma_euclid(x as int, vstd::arithmetic::power2::pow2(s as nat) as int);
            assert((x as int) / (vstd::arithmetic::power2::pow2(s as nat) as int) < 0) by (nonlinear_arith)
                requires
                    x < 0,
                    vstd::arithmetic::power2::pow2(s as nat) > 0,
                    x as int == vstd::arithmetic::power2::pow2(s as nat) * ((x as int) / (vstd::arithmetic::power2::pow2(s as nat) as int)) + (x as int) % (vstd::arithmetic::power2::pow2(s as nat) as int),
                    (x as int) % (vstd::arithmetic::power2::pow2(s as nat) as int) >= 0,
            ;
        }
    }
}

/// Law: `i8` division and remainder round towards zero. They are defined unless the divisor is
/// zero or is -1 under `i8::MIN`; then the quotient times the divisor plus the remainder is the
/// dividend, the remainder is smaller than the divisor in size, and it is zero or has the
/// dividend's sign.
pub proof fn law_i8_div_rem(x: i8, y: i8)
    ensures
        x.div_defined(y) <==> y != 0 && !(x == i8::MIN && y == -1),
        x.rem_defined(y) <==> x.div_defined(y),
        x.div_defined(y) ==> x as int == (x.div_value(y) as int) * (y as int) + (x.rem_value(y) as int),
        x.div_defined(y) ==> magnitude(x.rem_value(y) as int) < magnitude(y as int),
        x.div_defined(y) ==> x.rem_value(y) == 0 || (x.rem_value(y) < 0) == (x < 0),
{
    if x.div_defined(y) {
        lemma_towards_zero(x as int, y as int);
    }
}

/// Law: negating a `i8` is defined for every value but `i8::MIN`, and gives its negation.
pub proof fn law_i8_neg(x: i8)
    ensures
        x.neg_defined() <==> x != i8::MIN,
        x.neg_defined() ==> x.neg_value() as int == -x,
{
}

/// Law: `i16` addition, subtraction and multiplication are exact: each is defined exactly where
/// the mathematical result fits in `i16`, and then gives that result.
pub proof fn law_i16_exact_arithmetic(x: i16, y: i16)
    ensures
        x.add_defined(y) <==> i16::MIN <= x + y <= i16::MAX,
        x.add_defined(y) ==> x.add_value(y) as int == x + y,
        x.sub_defined(y) <==> i16::MIN <= x - y <= i16::MAX,
        x.sub_defined(y) ==> x.sub_value(y) as int == x - y,
        x.mul_defined(y) <==> i16::MIN <= x * y <= i16::MAX,
        x.mul_defined(y) ==> x.mul_value(y) as int == x * y,
{
}

/// Law: each compound assignment on `i16` (`+=`, `-=`, `*=`, `/=`, `%=`, `&=`, `|=`, `^=`, `<<=`,
/// `>>=`) is defined where its operator is and stores what the operator gives.
pub proof fn law_i16_assignments_agree(x: i16, y: i16)
    ensures
        x.add_assign_defined(y) == x.add_defined(y) && x.add_assign_value(y) == x.add_value(y),
        x.sub_assign_defined(y) == x.sub_defined(y) && x.sub_assign_value(y) == x.sub_value(y),
        x.mul_assign_defined(y) == x.mul_defined(y) && x.mul_assign_value(y) == x.mul_value(y),
        x.div_assign_defined(y) == x.div_defined(y) && x.div_assign_value(y) == x.div_value(y),
        x.rem_assign_defined(y) == x.rem_defined(y) && x.rem_assign_value(y) == x.rem_value(y),
        x.bitand_assign_defined(y) == x.bitand_defined(y) && x.bitand_assign_value(y)
            == x.bitand_value(y),
        x.bitor_assign_defined(y) == x.bitor_defined(y) && x.bitor_assign_value(y)
            == x.bitor_value(y),
        x.bitxor_assign_defined(y) == x.bitxor_defined(y) && x.bitxor_assign_value(y)
            == x.bitxor_value(y),
        x.shl_assign_defined(y) == x.shl_defined(y) && x.shl_assign_value(y) == x.shl_value(y),
        x.shr_assign_defined(y) == x.shr_defined(y) && x.shr_assign_value(y) == x.shr_value(y),
{
}

/// Law: the bitwise operators on `i16` work bit by bit: `&` and `|` together add up to the two
/// values, `^` is what `|` has that `&` has not, `&` with zero is zero, `|` with zero changes
/// nothing, a value `^` itself is zero, and `!` flips every bit, which is `-x - 1`.
pub proof fn law_i16_bitwise(x: i16, y: i16)
    ensures
        x.bitand_defined(y) && x.bitor_defined(y) && x.bitxor_defined(y),
        x.bitand_value(y) as int + x.bitor_value(y) as int == x + y,
        x.bitxor_value(y) as int == x.bitor_value(y) as int - x.bitand_value(y) as int,
        x.bitand_value(0) == 0,
        x.bitor_value(0) == x,
        x.bitxor_value(x) == 0,
        x.not_value() as int == -x - 1,
{
    assert((x & y) + (x | y) == x + y && (x ^ y) == (x | y) - (x & y) && x & 0 == 0 && x | 0 == x
        && x ^ x == 0 && !x == -x - 1) by (bit_vector);
}

/// Law: shifting a `i16` left is defined for shifts by fewer places than it has bits; by no places
/// it leaves the value as it is, and each further place doubles it, wrapping around in `i16`.
pub proof fn law_i16_shl_doubles(x: i16, s: i16)
    ensures
        x.shl_defined(s) <==> 0 <= s < 16,
        x.shl_value(0) == x,
        0 <= s && s + 1 < 16 ==> x.shl_value((s + 1) as i16) == (x.shl_value(s) * 2) as i16,
{
    assert(x << 0u32 == x) by (bit_vector);
    if 0 <= s && s + 1 < 16 {
        let y = x << (s as u32);
        let z = x << ((s + 1) as u32);
        assert(z == (y * 2) as i16) by (bit_vector)
            requires
                y == x << (s as u32),
                z == x << ((s + 1) as u32),
                0 <= s,
                s + 1 < 16,
        ;
    }
}

proof fn lemma_i16_shr_step(x: i16, s: i16)
    requires
        0 <= s,
        s + 1 < 16,
    ensures
        x.shr_value(0) == x,
        x.shr_value((s + 1) as i16) as int == (x.shr_value(s) as int) / 2,
{
    let y = x >> (s as u32);
    let z = x >> ((s + 1) as u32);
    assert(x >> 0u32 == x && 2 * z + (y & 1i16) == y && 0 <= (y & 1i16) <= 1) by (bit_vector)
        requires
            y == x >> (s as u32),
            z == x >> ((s + 1) as u32),
            0 <= s,
            s + 1 < 16,
    ;
}

/// Law: shifting a `i16` right is defined for shifts by fewer places than it has bits, and by `s`
/// places it divides the value by `2^s`, rounding towards negative infinity: the shift is arithmetic, so a negative value stays negative.
#[verifier::spinoff_prover]
pub proof fn law_i16_shr_divides(x: i16, s: i16)
    ensures
        x.shr_defined(s) <==> 0 <= s < 16,
        0 <= s < 16 ==> x.shr_value(s) as int == (x as int) / (vstd::arithmetic::power2::pow2(s as nat) as int),
        0 <= s < 16 && x < 0 ==> x.shr_value(s) < 0,
    decreases s,
{
    if 0 <= s < 16 {
        if s == 0 {
            lemma_i16_shr_step(x, 0);
            vstd::arithmetic::power2::lemma2_to64();
        } else {
            let t = (s - 1) as i16;
            law_i16_shr_divides(x, t);
            lemma_i16_shr_step(x, t);
            vstd::arithmetic::power2::lemma_pow2_pos(t as nat);
            vstd::arithmetic::power2::lemma_pow2_unfold(s as nat);
            lemma_halve_quotient(x as int, vstd::arithmetic::power2::pow2(t as nat) as int);
            assert(vstd::arithmetic::power2::pow2(s as nat) == vstd::arithmetic::power2::pow2(t as nat) * 2);
            assert((t + 1) as i16 == s);
            assert(x.shr_value(s) as int == (x.shr_value(t) as int) / 2);
            assert(x.shr_value(s) as int == ((x as int) / (vstd::arithmetic::power2::pow2(t as nat) as int)) / 2);
        }
        if x < 0 {
            vstd::arithmetic::power2::lemma_pow2_pos(s as nat);
            lemma_euclid(x as int, vstd::arithmetic::power2::pow2(s as nat) as int);
            assert((x as int) / (vstd::arithmetic::power2::pow2(s as nat) as int) < 0) by (nonlinear_arith)
                requires
                    x < 0,
                    vstd::arithmetic::power2::pow2(s as nat) > 0,
                    x as int == vstd::arithmetic::power2::pow2(s as nat) * ((x as int) / (vstd::arithmetic::power2::pow2(s as nat) as int)) + (x as int) % (vstd::arithmetic::power2::pow2(s as nat) as int),
                    (x as int) % (vstd::arithmetic::power2::pow2(s as nat) as int) >= 0,
            ;
        }
    }
}

/// Law: `i16` division and remainder round towards zero. They are defined unless the divisor is
/// zero or is -1 under `i16::MIN`; then the quotient times the divisor plus the remainder is the
/// dividend, the remainder is smaller than the divisor in size, and it is zero or has the
/// dividend's sign.
pub proof fn law_i16_div_rem(x: i16, y: i16)
    ensures
        x.div_defined(y) <==> y != 0 && !(x == i16::MIN && y == -1),
        x.rem_defined(y) <==> x.div_defined(y),
        x.div_defined(y) ==> x as int == (x.div_value(y) as int) * (y as int) + (x.rem_value(y) as int),
        x.div_defined(y) ==> magnitude(x.rem_value(y) as int) < magnitude(y as int),
        x.div_defined(y) ==> x.rem_value(y) == 0 || (x.rem_value(y) < 0) == (x < 0),
{
    if x.div_defined(y) {
        lemma_towards_zero(x as int, y as int);
    }
}

/// Law: negating a `i16` is defined for every value but `i16::MIN`, and gives its negation.
pub proof fn law_i16_neg(x: i16)
    ensures
        x.neg_defined() <==> x != i16::MIN,
        x.neg_defined() ==> x.neg_value() as int == -x,
{
}

/// Law: `i32` addition, subtraction and multiplication are exact: each is defined exactly where
/// the mathematical result fits in `i32`, and then gives that result.
pub proof fn law_i32_exact_arithmetic(x: i32, y: i32)
    ensures
        x.add_defined(y) <==> i32::MIN <= x + y <= i32::MAX,
        x.add_defined(y) ==> x.add_value(y) as int == x + y,
        x.sub_defined(y) <==> i32::MIN <= x - y <= i32::MAX,
        x.sub_defined(y) ==> x.sub_value(y) as int == x - y,
        x.mul_defined(y) <==> i32::MIN <= x * y <= i32::MAX,
        x.mul_defined(y) ==> x.mul_value(y) as int == x * y,
{
}

/// Law: each compound assignment on `i32` (`+=`, `-=`, `*=`, `/=`, `%=`, `&=`, `|=`, `^=`, `<<=`,
/// `>>=`) is defined where its operator is and stores what the operator gives.
pub proof fn law_i32_assignments_agree(x: i32, y: i32)
    ensures
        x.add_assign_defined(y) == x.add_defined(y) && x.add_assign_value(y) == x.add_value(y),
        x.sub_assign_defined(y) == x.sub_defined(y) && x.sub_assign_value(y) == x.sub_value(y),
        x.mul_assign_defined(y) == x.mul_defined(y) && x.mul_assign_value(y) == x.mul_value(y),
        x.div_assign_defined(y) == x.div_defined(y) && x.div_assign_value(y) == x.div_value(y),
        x.rem_assign_defined(y) == x.rem_defined(y) && x.rem_assign_value(y) == x.rem_value(y),
        x.bitand_assign_defined(y) == x.bitand_defined(y) && x.bitand_assign_value(y)
            == x.bitand_value(y),
        x.bitor_assign_defined(y) == x.bitor_defined(y) && x.bitor_assign_value(y)
            == x.bitor_value(y),
        x.bitxor_assign_defined(y) == x.bitxor_defined(y) && x.bitxor_assign_value(y)
            == x.bitxor_value(y),
        x.shl_assign_defined(y) == x.shl_defined(y) && x.shl_assign_value(y) == x.shl_value(y),
        x.shr_assign_defined(y) == x.shr_defined(y) && x.shr_assign_value(y) == x.shr_value(y),
{
}

/// Law: the bitwise operators on `i32` work bit by bit: `&` and `|` together add up to the two
/// values, `^` is what `|` has that `&` has not, `&` with zero is zero, `|` with zero changes
/// nothing, a value `^` itself is zero, and `!` flips every bit, which is `-x - 1`.
pub proof fn law_i32_bitwise(x: i32, y: i32)
    ensures
        x.bitand_defined(y) && x.bitor_defined(y) && x.bitxor_defined(y),
        x.bitand_value(y) as int + x.bitor_value(y) as int == x + y,
        x.bitxor_value(y) as int == x.bitor_value(y) as int - x.bitand_value(y) as int,
        x.bitand_value(0) == 0,
        x.bitor_value(0) == x,
        x.bitxor_value(x) == 0,
        x.not_value() as int == -x - 1,
{
    assert((x & y) + (x | y) == x + y && (x ^ y) == (x | y) - (x & y) && x & 0 == 0 && x | 0 == x
        && x ^ x == 0 && !x == -x - 1) by (bit_vector);
}

/// Law: shifting a `i32` left is defined for shifts by fewer places than it has bits; by no places
/// it leaves the value as it is, and each further place doubles it, wrapping around in `i32`.
pub proof fn law_i32_shl_doubles(x: i32, s: i32)
    ensures
        x.shl_defined(s) <==> 0 <= s < 32,
        x.shl_value(0) == x,
        0 <= s && s + 1 < 32 ==> x.shl_value((s + 1) as i32) == (x.shl_value(s) * 2) as i32,
{
    assert(x << 0u32 == x) by (bit_vector);
    if 0 <= s && s + 1 < 32 {
        let y = x << (s as u32);
        let z = x << ((s + 1) as u32);
        assert(z == (y * 2) as i32) by (bit_vector)
            requires
                y == x << (s as u32),
                z == x << ((s + 1) as u32),
                0 <= s,
                s + 1 < 32,
        ;
    }
}

proof fn lemma_i32_shr_step(x: i32, s: i32)
    requires
        0 <= s,
        s + 1 < 32,
    ensures
        x.shr_value(0) == x,
        x.shr_value((s + 1) as i32) as int == (x.shr_value(s) as int) / 2,
{
    let y = x >> (s as u32);
    let z = x >> ((s + 1) as u32);
    assert(x >> 0u32 == x && 2 * z + (y & 1i32) == y && 0 <= (y & 1i32) <= 1) by (bit_vector)
        requires
            y == x >> (s as u32),
            z == x >> ((s + 1) as u32),
            0 <= s,
            s + 1 < 32,
    ;
}

/// Law: shifting a `i32` right is defined for shifts by fewer places than it has bits, and by `s`
/// places it divides the value by `2^s`, rounding towards negative infinity: the shift is arithmetic, so a negative value stays negative.
#[verifier::spinoff_prover]
pub proof fn law_i32_shr_divides(x: i32, s: i32)
    ensures
        x.shr_defined(s) <==> 0 <= s < 32,
        0 <= s < 32 ==> x.shr_value(s) as int == (x as int) / (vstd::arithmetic::power2::pow2(s as nat) as int),
        0 <= s < 32 && x < 0 ==> x.shr_value(s) < 0,
    decreases s,
{
    if 0 <= s < 32 {
        if s == 0 {
            lemma_i32_shr_step(x, 0);
            vstd::arithmetic::power2::lemma2_to64();
        } else {
            let t = (s - 1) as i32;
            law_i32_shr_divides(x, t);
            lemma_i32_shr_step(x, t);
            vstd::arithmetic::power2::lemma_pow2_pos(t as nat);
            vstd::arithmetic::power2::lemma_pow2_unfold(s as nat);
            lemma_halve_quotient(x as int, vstd::arithmetic::power2::pow2(t as nat) as int);
            assert(vstd::arithmetic::power2::pow2(s as nat) == vstd::arithmetic::power2::pow2(t as nat) * 2);
            assert((t + 1) as i32 == s);
            assert(x.shr_value(s) as int == (x.shr_value(t) as int) / 2);
            assert(x.shr_value(s) as int == ((x as int) / (vstd::arithmetic::power2::pow2(t as nat) as int)) / 2);
        }
        if x < 0 {
            vstd::arithmetic::power2::lemma_pow2_pos(s as nat);
            lemma_euclid(x as int, vstd::arithmetic::power2::pow2(s as nat) as int);
            assert((x as int) / (vstd::arithmetic::power2::pow2(s as nat) as int) < 0) by (nonlinear_arith)
                requires
                    x < 0,
                    vstd::arithmetic::power2::pow2(s as nat) > 0,
                    x as int == vstd::arithmetic::power2::pow2(s as nat) * ((x as int) / (vstd::arithmetic::power2::pow2(s as nat) as int)) + (x as int) % (vstd::arithmetic::power2::pow2(s as nat) as int),
                    (x as int) % (vstd::arithmetic::power2::pow2(s as nat) as int) >= 0,
            ;
        }
    }
}

/// Law: `i32` division and remainder round towards zero. They are defined unless the divisor is
/// zero or is -1 under `i32::MIN`; then the quotient times the divisor plus the remainder is the
/// dividend, the remainder is smaller than the divisor in size, and it is zero or has the
/// dividend's sign.
pub proof fn law_i32_div_rem(x: i32, y: i32)
    ensures
        x.div_defined(y) <==> y != 0 && !(x == i32::MIN && y == -1),
        x.rem_defined(y) <==> x.div_defined(y),
        x.div_defined(y) ==> x as int == (x.div_value(y) as int) * (y as int) + (x.rem_value(y) as int),
        x.div_defined(y) ==> magnitude(x.rem_value(y) as int) < magnitude(y as int),
        x.div_defined(y) ==> x.rem_value(y) == 0 || (x.rem_value(y) < 0) == (x < 0),
{
    if x.div_defined(y) {
        lemma_towards_zero(x as int, y as int);
    }
}

/// Law: negating a `i32` is defined for every value but `i32::MIN`, and gives its negation.
pub proof fn law_i32_neg(x: i32)
    ensures
        x.neg_defined() <==> x != i32::MIN,
        x.neg_defined() ==> x.neg_value() as int == -x,
{
}

/// Law: `isize` addition, subtraction and multiplication are exact: each is defined exactly where
/// the mathematical result fits in `isize`, and then gives that result.
pub proof fn law_isize_exact_arithmetic(x: isize, y: isize)
    ensures
        x.add_defined(y) <==> isize::MIN <= x + y <= isize::MAX,
        x.add_defined(y) ==> x.add_value(y) as int == x + y,
        x.sub_defined(y) <==> isize::MIN <= x - y <= isize::MAX,
        x.sub_defined(y) ==> x.sub_value(y) as int == x - y,
        x.mul_defined(y) <==> isize::MIN <= x * y <= isize::MAX,
        x.mul_defined(y) ==> x.mul_value(y) as int == x * y,
{
}

/// Law: each compound assignment on `isize` (`+=`, `-=`, `*=`, `/=`, `%=`, `&=`, `|=`, `^=`, `<<=`,
/// `>>=`) is defined where its operator is and stores what the operator gives.
pub proof fn law_isize_assignments_agree(x: isize, y: isize)
    ensures
        x.add_assign_defined(y) == x.add_defined(y) && x.add_assign_value(y) == x.add_value(y),
        x.sub_assign_defined(y) == x.sub_defined(y) && x.sub_assign_value(y) == x.sub_value(y),
        x.mul_assign_defined(y) == x.mul_defined(y) && x.mul_assign_value(y) == x.mul_value(y),
        x.div_assign_defined(y) == x.div_defined(y) && x.div_assign_value(y) == x.div_value(y),
        x.rem_assign_defined(y) == x.rem_defined(y) && x.rem_assign_value(y) == x.rem_value(y),
        x.bitand_assign_defined(y) == x.bitand_defined(y) && x.bitand_assign_value(y)
            == x.bitand_value(y),
        x.bitor_assign_defined(y) == x.bitor_defined(y) && x.bitor_assign_value(y)
            == x.bitor_value(y),
        x.bitxor_assign_defined(y) == x.bitxor_defined(y) && x.bitxor_assign_value(y)
            == x.bitxor_value(y),
        x.shl_assign_defined(y) == x.shl_defined(y) && x.shl_assign_value(y) == x.shl_value(y),
        x.shr_assign_defined(y) == x.shr_defined(y) && x.shr_assign_value(y) == x.shr_value(y),
{
}

/// Law: the bitwise operators on `isize` work bit by bit: `&` and `|` together add up to the two
/// values, `^` is what `|` has that `&` has not, `&` with zero is zero, `|` with zero changes
/// nothing, a value `^` itself is zero, and `!` flips every bit, which is `-x - 1`.
pub proof fn law_isize_bitwise(x: isize, y: isize)
    ensures
        x.bitand_defined(y) && x.bitor_defined(y) && x.bitxor_defined(y),
        x.bitand_value(y) as int + x.bitor_value(y) as int == x + y,
        x.bitxor_value(y) as int == x.bitor_value(y) as int - x.bitand_value(y) as int,
        x.bitand_value(0) == 0,
        x.bitor_value(0) == x,
        x.bitxor_value(x) == 0,
        x.not_value() as int == -x - 1,
{
    assert((x & y) + (x | y) == x + y && (x ^ y) == (x | y) - (x & y) && x & 0 == 0 && x | 0 == x
        && x ^ x == 0 && !x == -x - 1) by (bit_vector);
}

/// Law: shifting a `isize` left is defined for shifts by fewer places than it has bits; by no places
/// it leaves the value as it is, and each further place doubles it, wrapping around in `isize`.
pub proof fn law_isize_shl_doubles(x: isize, s: isize)
    ensures
        x.shl_defined(s) <==> 0 <= s < isize::BITS,
        x.shl_value(0) == x,
        0 <= s && s + 1 < isize::BITS ==> x.shl_value((s + 1) as isize) == (x.shl_value(s) * 2) as isize,
{
    assert(x << 0u32 == x) by (bit_vector);
    if 0 <= s && s + 1 < isize::BITS {
        let y = x << (s as u32);
        let z = x << ((s + 1) as u32);
        assert(z == (y * 2) as isize) by (bit_vector)
            requires
                y == x << (s as u32),
                z == x << ((s + 1) as u32),
                0 <= s,
                s + 1 < isize::BITS,
        ;
    }
}

proof fn lemma_isize_shr_step(x: isize, s: isize)
    requires
        0 <= s,
        s + 1 < isize::BITS,
    ensures
        x.shr_value(0) == x,
        x.shr_value((s + 1) as isize) as int == (x.shr_value(s) as int) / 2,
{
    let y = x >> (s as u32);
    let z = x >> ((s + 1) as u32);
    assert(x >> 0u32 == x && 2 * z + (y & 1isize) == y && 0 <= (y & 1isize) <= 1) by (bit_vector)
        requires
            y == x >> (s as u32),
            z == x >> ((s + 1) as u32),
            0 <= s,
            s + 1 < isize::BITS,
    ;
}

/// Law: shifting a `isize` right is defined for shifts by fewer places than it has bits, and by `s`
/// places it divides the value by `2^s`, rounding towards negative infinity: the shift is arithmetic, so a negative value stays negative.
#[verifier::spinoff_prover]
pub proof fn law_isize_shr_divides(x: isize, s: isize)
    ensures
        x.shr_defined(s) <==> 0 <= s < isize::BITS,
        0 <= s < isize::BITS ==> x.shr_value(s) as int == (x as int) / (vstd::arithmetic::power2::pow2(s as nat) as int),
        0 <= s < isize::BITS && x < 0 ==> x.shr_value(s) < 0,
    decreases s,
{
    if 0 <= s < isize::BITS {
        if s == 0 {
            lemma_isize_shr_step(x, 0);
            vstd::arithmetic::power2::lemma2_to64();
            assert(x.shr_value(s) == x);
            assert((x as int) / 1 == x as int);
        } else {
            let t = (s - 1) as isize;
            law_isize_shr_divides(x, t);
            lemma_isize_shr_step(x, t);
            vstd::arithmetic::power2::lemma_pow2_pos(t as nat);
            vstd::arithmetic::power2::lemma_pow2_unfold(s as nat);
            lemma_halve_quotient(x as int, vstd::arithmetic::power2::pow2(t as nat) as int);
            assert(vstd::arithmetic::power2::pow2(s as nat) == vstd::arithmetic::power2::pow2(t as nat) * 2);
            assert((t + 1) as isize == s);
            assert(x.shr_value(s) as int == (x.shr_value(t) as int) / 2);
            assert(x.shr_value(s) as int == ((x as int) / (vstd::arithmetic::power2::pow2(t as nat) as int)) / 2);
        }
        if x < 0 {
            vstd::arithmetic::power2::lemma_pow2_pos(s as nat);
            lemma_euclid(x as int, vstd::arithmetic::power2::pow2(s as nat) as int);
            assert((x as int) / (vstd::arithmetic::power2::pow2(s as nat) as int) < 0) by (nonlinear_arith)
                requires
                    x < 0,
                    vstd::arithmetic::power2::pow2(s as nat) > 0,
                    x as int == vstd::arithmetic::power2::pow2(s as nat) * ((x as int) / (vstd::arithmetic::power2::pow2(s as nat) as int)) + (x as int) % (vstd::arithmetic::power2::pow2(s as nat) as int),
                    (x as int) % (vstd::arithmetic::power2::pow2(s as nat) as int) >= 0,
            ;
        }
    }
}

/// Law: `isize` division and remainder round towards zero. They are defined unless the divisor is
/// zero or is -1 under `isize::MIN`; then the quotient times the divisor plus the remainder is the
/// dividend, the remainder is smaller than the divisor in size, and it is zero or has the
/// dividend's sign.
pub proof fn law_isize_div_rem(x: isize, y: isize)
    ensures
        x.div_defined(y) <==> y != 0 && !(x == isize::MIN && y == -1),
        x.rem_defined(y) <==> x.div_defined(y),
        x.div_defined(y) ==> x as int == (x.div_value(y) as int) * (y as int) + (x.rem_value(y) as int),
        x.div_defined(y) ==> magnitude(x.rem_value(y) as int) < magnitude(y as int),
        x.div_defined(y) ==> x.rem_value(y) == 0 || (x.rem_value(y) < 0) == (x < 0),
{
    if x.div_defined(y) {
        lemma_towards_zero(x as int, y as int);
    }
}

/// Law: negating a `isize` is defined for every value but `isize::MIN`, and gives its negation.
pub proof fn law_isize_neg(x: isize)
    ensures
        x.neg_defined() <==> x != isize::MIN,
        x.neg_defined() ==> x.neg_value() as int == -x,
{
}

/// Law: on `bool`, `!` is negation and `&`, `|` and `^` are conjunction, disjunction and
/// inequality.
pub proof fn law_bool_operators(a: bool, b: bool)
    ensures
        a.not_value() == !a,
        a.bitand_value(b) == (a && b),
        a.bitor_value(b) == (a || b),
        a.bitxor_value(b) == (a != b),
{
}

/// Unsizing coercions, such as from `&[T; N]` to `&[T]`.
pub trait CoerceUnsized<T> {}

/// Dispatch of trait-object methods through a receiver.
pub trait DispatchFromDyn<T> {}

/// Types usable as a method receiver.
pub trait LegacyReceiver {}

impl<'a, T: ?Sized> LegacyReceiver for &'a T {}

impl<'a, T: ?Sized> LegacyReceiver for &'a mut T {}

} // verus!
