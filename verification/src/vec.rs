//! Three-component vectors of scalars: points, directions and colours.
use vstd::prelude::*;
use crate::scalar::{Scalar, ONE_BITS};
use std::ops::Neg;

verus! {

/// The pattern of `1e-8`: a component below it in magnitude counts as zero.
pub const NEAR_ZERO_BITS: u64 = 0x3e45_798e_e230_8c3a;

/// A vector of three scalars.
#[derive(Clone, Copy, Debug)]
pub struct Vec3 {
    pub x: Scalar,
    pub y: Scalar,
    pub z: Scalar,
}

/// A position in space.
pub type Point3 = Vec3;

/// A colour: red, green and blue in `x`, `y` and `z`.
pub type Color = Vec3;

impl Vec3 {
    /// The vector with every component's sign flipped.
    pub open spec fn negated(self) -> Vec3 {
        Vec3 { x: self.x.negated(), y: self.y.negated(), z: self.z.negated() }
    }

    /// Every component is smaller than `1e-8` in magnitude.
    pub open spec fn is_near_zero(self) -> bool {
        let eps = Scalar { bits: NEAR_ZERO_BITS };
        self.x.absolute().less(eps) && self.y.absolute().less(eps) && self.z.absolute().less(eps)
    }

    pub fn new(x: Scalar, y: Scalar, z: Scalar) -> (out: Vec3)
        ensures
            out.x == x,
            out.y == y,
            out.z == z,
    {
        Vec3 { x, y, z }
    }

    pub fn x(self) -> (out: Scalar)
        ensures
            out == self.x,
    {
        self.x
    }

    pub fn y(self) -> (out: Scalar)
        ensures
            out == self.y,
    {
        self.y
    }

    pub fn z(self) -> (out: Scalar)
        ensures
            out == self.z,
    {
        self.z
    }

    /// Rejection sampling in the unit sphere: keeps the candidate `p`, drawn
    /// from the cube of side two around the origin, if its squared length
    /// `length_squared` is below one. The caller draws again on `None`.
    pub fn random_in_unit_sphere(p: Vec3, length_squared: Scalar) -> (out: Option<Vec3>)
        ensures
            out == if length_squared.less(Scalar::one()) {
                Some(p)
            } else {
                None
            },
    {
        if length_squared.lt(Scalar::from_bits(ONE_BITS)) {
            Some(p)
        } else {
            None
        }
    }

    /// Rejection sampling in the unit disk of the plane `z = 0`: keeps the
    /// candidate `(x, y, 0)`, drawn from the square of side two around the
    /// origin, if its squared length `length_squared` is below one. The
    /// caller draws again on `None`.
    pub fn random_in_unit_disk(x: Scalar, y: Scalar, length_squared: Scalar) -> (out: Option<Vec3>)
        ensures
            out == if length_squared.less(Scalar::one()) {
                Some(Vec3 { x, y, z: Scalar::zero() })
            } else {
                None
            },
    {
        if length_squared.lt(Scalar::from_bits(ONE_BITS)) {
            Some(Vec3 { x, y, z: Scalar::from_bits(0) })
        } else {
            None
        }
    }

    /// Turns a sample from the unit sphere into the hemisphere around a
    /// normal. `along` is the dot product of the sample with the normal: the
    /// sample is kept where it is positive and mirrored through the origin
    /// where it is not.
    pub fn random_in_hemisphere(in_unit_sphere: Vec3, along: Scalar) -> (out: Vec3)
        ensures
            out == if Scalar::zero().less(along) {
                in_unit_sphere
            } else {
                in_unit_sphere.negated()
            },
    {
        if along.gt(Scalar::from_bits(0)) {
            in_unit_sphere
        } else {
            in_unit_sphere.neg()
        }
    }

    /// Whether the vector is too short to serve as a direction.
    pub fn near_zero(self) -> (out: bool)
        ensures
            out == self.is_near_zero(),
    {
        let eps = Scalar::from_bits(NEAR_ZERO_BITS);
        self.x.abs().lt(eps) && self.y.abs().lt(eps) && self.z.abs().lt(eps)
    }
}

impl std::ops::Neg for Vec3 {
    type Output = Vec3;

    /// `-self`, component by component.
    fn neg(self) -> (out: Vec3) {
        Vec3 { x: self.x.neg(), y: self.y.neg(), z: self.z.neg() }
    }
}

impl vstd::std_specs::ops::NegSpecImpl for Vec3 {
    open spec fn obeys_neg_spec() -> bool {
        true
    }

    open spec fn neg_req(self) -> bool {
        true
    }

    open spec fn neg_spec(self) -> Vec3 {
        self.negated()
    }
}

} // verus!
