//! Vectors in the plane.

use crate::scalar::Scalar;
use vstd::prelude::*;

verus! {

/// A point or a displacement in the plane.
#[derive(Clone, Copy, Debug)]
pub struct Vector<Type> {
    pub x: Type,
    pub y: Type,
}

impl<T: Scalar> Vector<T> {
    /// The component-wise sum of two vectors.
    pub open spec fn add_spec(self, other: Self) -> Self {
        Vector { x: self.x.add_spec(other.x), y: self.y.add_spec(other.y) }
    }

    /// The vector with both components multiplied by `rhs`.
    pub open spec fn mul_spec(self, rhs: T) -> Self {
        Vector { x: self.x.mul_spec(rhs), y: self.y.mul_spec(rhs) }
    }

    /// The vector whose components are both zero.
    pub open spec fn zero_spec() -> Self {
        Vector { x: crate::scalar::zero::<T>(), y: crate::scalar::zero::<T>() }
    }

    /// The vector whose components are both zero.
    pub fn zero() -> (v: Self)
        ensures
            v == Self::zero_spec(),
    {
        Vector { x: T::from_ratio(0, 1), y: T::from_ratio(0, 1) }
    }

    /// Adds `other` to this vector, component by component.
    pub fn add_assign(&mut self, other: Self)
        ensures
            *final(self) == old(self).add_spec(other),
    {
        *self = Vector { x: self.x.add(other.x), y: self.y.add(other.y) };
    }

    /// This vector scaled by `rhs`.
    pub fn mul(self, rhs: T) -> (v: Self)
        ensures
            v == self.mul_spec(rhs),
    {
        Vector { x: self.x.mul(rhs), y: self.y.mul(rhs) }
    }
}

} // verus!
