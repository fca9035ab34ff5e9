//! The number type over which the engine is written.

use vstd::prelude::*;

verus! {

/// The numbers that positions, velocities, forces and coefficients are made of.
///
/// The engine is written once, over this trait. Each operation has a spec
/// function that names its result, and the engine's contracts are stated over
/// those names: they say which operations are applied to which values, in which
/// order, and assume no law of arithmetic.
///
/// `Fixed` implements the trait with exact arithmetic and defines every spec
/// function; what is proved of the engine's numbers is proved of it.
///
/// The bodies that the spec functions have here are placeholders, so that an
/// implementation outside verified code, such as one over floating point, can
/// be written at all. Each placeholder is one fixed value whatever the
/// operands are, and no real operation meets that: of such an implementation
/// nothing is proved. It runs the same code, and what the engine's contracts
/// say of which operation is applied to what still describes that code.
pub trait Scalar: Copy {
    /// The number `num / den`.
    open spec fn ratio_spec(num: i32, den: i32) -> Self {
        arbitrary()
    }

    /// `self + rhs`.
    open spec fn add_spec(self, rhs: Self) -> Self {
        arbitrary()
    }

    /// `self - rhs`.
    open spec fn sub_spec(self, rhs: Self) -> Self {
        arbitrary()
    }

    /// `self * rhs`.
    open spec fn mul_spec(self, rhs: Self) -> Self {
        arbitrary()
    }

    /// `self / rhs`.
    open spec fn div_spec(self, rhs: Self) -> Self {
        arbitrary()
    }

    /// `-self`.
    open spec fn neg_spec(self) -> Self {
        arbitrary()
    }

    /// The square root of `self`.
    open spec fn sqrt_spec(self) -> Self {
        arbitrary()
    }

    /// Whether `self` is strictly below `rhs`.
    open spec fn lt_spec(self, rhs: Self) -> bool {
        arbitrary()
    }

    /// `self` without its fractional part, as a machine integer.
    open spec fn truncate_spec(self) -> isize {
        arbitrary()
    }

    /// The largest whole number that is not above `self / rhs`, as a machine
    /// integer.
    open spec fn floor_div_spec(self, rhs: Self) -> isize {
        arbitrary()
    }

    fn from_ratio(num: i32, den: i32) -> (r: Self)
        requires
            den != 0,
        ensures
            r == Self::ratio_spec(num, den),
    ;

    fn add(self, rhs: Self) -> (r: Self)
        ensures
            r == self.add_spec(rhs),
    ;

    fn sub(self, rhs: Self) -> (r: Self)
        ensures
            r == self.sub_spec(rhs),
    ;

    fn mul(self, rhs: Self) -> (r: Self)
        ensures
            r == self.mul_spec(rhs),
    ;

    fn div(self, rhs: Self) -> (r: Self)
        ensures
            r == self.div_spec(rhs),
    ;

    fn neg(self) -> (r: Self)
        ensures
            r == self.neg_spec(),
    ;

    fn sqrt(self) -> (r: Self)
        ensures
            r == self.sqrt_spec(),
    ;

    fn lt(self, rhs: Self) -> (b: bool)
        ensures
            b == self.lt_spec(rhs),
    ;

    fn truncate(self) -> (n: isize)
        ensures
            n == self.truncate_spec(),
    ;

    fn floor_div(self, rhs: Self) -> (n: isize)
        ensures
            n == self.floor_div_spec(rhs),
    ;

    /// A number drawn at random between the two bounds. Nothing is said of its
    /// distribution; where `low` is not above `high` it is not outside them.
    fn random_between(low: Self, high: Self) -> (r: Self)
        ensures
            !high.lt_spec(low) ==> !r.lt_spec(low) && !high.lt_spec(r),
    ;
}

/// The number zero.
pub open spec fn zero<T: Scalar>() -> T {
    T::ratio_spec(0, 1)
}

} // verus!
