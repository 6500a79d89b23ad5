//! Intersection records and the contract every primitive meets.
use vstd::prelude::*;
use std::ops::Neg;
use crate::material::Material;
use crate::ray::Ray;
use crate::scalar::Scalar;
use crate::vec::{Point3, Vec3};

verus! {

/// Where and how a ray met a surface. The record borrows the material from
/// the object that was met.
pub struct HitRecord<'a, M: Material + ?Sized> {
    /// The point of intersection.
    pub p: Point3,
    /// The surface normal there, turned against the incoming ray.
    pub normal: Vec3,
    /// The ray parameter of the intersection.
    pub t: Scalar,
    /// Whether the ray came from the side the outward normal points to.
    pub front_face: bool,
    /// The material of the surface.
    pub mat_ptr: &'a M,
}

/// `t` lies strictly between `t_min` and `t_max`.
pub open spec fn within(t: Scalar, t_min: Scalar, t_max: Scalar) -> bool {
    t_min.less(t) && t.less(t_max)
}

/// What the dot product of a ray's direction with a normal becomes when the
/// normal is oriented: `facing` is that product for the outward normal, and
/// flipping the normal flips its sign.
pub open spec fn oriented(facing: Scalar) -> Scalar {
    if facing.less(Scalar::zero()) {
        facing
    } else {
        facing.negated()
    }
}

/// An oriented normal never points along the ray: whatever `facing` is, a NaN
/// too, `oriented(facing)` is not above zero.
pub proof fn lemma_oriented_normal_opposes(facing: Scalar)
    ensures
        !Scalar::zero().less(oriented(facing)),
{
}

impl<'a, M: Material + ?Sized> HitRecord<'a, M> {
    /// Orients the normal. `facing` is the dot product of the ray's direction
    /// with `outward_normal`: where it is negative the ray arrives from
    /// outside and the outward normal is kept, else the normal is flipped.
    pub fn set_face_normal(&mut self, facing: Scalar, outward_normal: Vec3)
        ensures
            final(self).front_face == facing.less(Scalar::zero()),
            final(self).normal == if facing.less(Scalar::zero()) {
                outward_normal
            } else {
                outward_normal.negated()
            },
            final(self).p == old(self).p,
            final(self).t == old(self).t,
            final(self).mat_ptr == old(self).mat_ptr,
    {
        self.front_face = facing.lt(Scalar::from_bits(0));
        self.normal = if self.front_face {
            outward_normal
        } else {
            outward_normal.neg()
        };
    }
}

/// Anything a ray can meet.
///
/// `crossing` is the object's model: it says which records are places where
/// a ray meets the object, and `hit` is held to it. It is never run. An
/// implementation compiled without the verifier still has to give it a body,
/// which may simply be unreachable.
pub trait Hittable {
    /// The materials of this object's surfaces.
    type Mat: Material + ?Sized;

    /// Whether `rec` records a place where `r` meets this object.
    spec fn crossing(&self, r: Ray, rec: HitRecord<Self::Mat>) -> bool;

    /// The nearest crossing of `r` whose parameter lies strictly between
    /// `t_min` and `t_max`, or `None` where there is none.
    fn hit<'a>(&'a self, r: &Ray, t_min: Scalar, t_max: Scalar) -> (out: Option<
        HitRecord<'a, Self::Mat>,
    >)
        ensures
            out matches Some(rec) ==> {
                &&& self.crossing(*r, rec)
                &&& within(rec.t, t_min, t_max)
                &&& forall|other: HitRecord<Self::Mat>|
                    #[trigger] self.crossing(*r, other) && within(other.t, t_min, t_max)
                        ==> !other.t.less(rec.t)
            },
            out is None ==> forall|other: HitRecord<Self::Mat>|
                #[trigger] self.crossing(*r, other) ==> !within(other.t, t_min, t_max),
    ;
}

} // verus!
