//! Spheres: which root of the intersection quadratic counts, and the record
//! made at it.
use vstd::prelude::*;
use std::rc::Rc;
use crate::hittable::{within, HitRecord};
use crate::material::Material;
use crate::scalar::Scalar;
use crate::vec::{Point3, Vec3};

verus! {

/// A sphere. A negative radius is allowed: it turns the outward normal
/// inward, which makes the inner surface of a hollow shell. The material is
/// shared: several spheres may hold the same one.
pub struct Sphere<M: Material + ?Sized> {
    pub center: Point3,
    pub radius: Scalar,
    pub mat_ptr: Rc<M>,
}

/// The accepted root of the quadratic `|origin + t * direction - center|^2 =
/// radius^2`, given its discriminant and its two roots, `near` being the
/// smaller: none where the discriminant is negative, else `near` where it
/// lies strictly between `t_min` and `t_max`, else `far` where that one
/// does, else none.
pub open spec fn accepted_root(
    discriminant: Scalar,
    near: Scalar,
    far: Scalar,
    t_min: Scalar,
    t_max: Scalar,
) -> Option<Scalar> {
    if discriminant.less(Scalar::zero()) {
        None
    } else if within(near, t_min, t_max) {
        Some(near)
    } else if within(far, t_min, t_max) {
        Some(far)
    } else {
        None
    }
}

/// With the roots in order, `far` not below `near`, the accepted root is the
/// nearest of the two that lies in the window, and none is accepted only
/// where the discriminant is negative or neither root lies in the window.
pub proof fn lemma_accepted_root_is_nearest(
    discriminant: Scalar,
    near: Scalar,
    far: Scalar,
    t_min: Scalar,
    t_max: Scalar,
)
    requires
        !far.less(near),
    ensures
        match accepted_root(discriminant, near, far, t_min, t_max) {
            Some(t) => {
                &&& t == near || t == far
                &&& within(t, t_min, t_max)
                &&& within(near, t_min, t_max) ==> !near.less(t)
                &&& within(far, t_min, t_max) ==> !far.less(t)
            },
            None => discriminant.less(Scalar::zero()) || (!within(near, t_min, t_max) && !within(
                far,
                t_min,
                t_max,
            )),
        },
{
}

impl<M: Material + ?Sized> Sphere<M> {
    pub fn new(center: Point3, radius: Scalar, mat_ptr: Rc<M>) -> (out: Self)
        ensures
            out.center == center,
            out.radius == radius,
            out.mat_ptr == mat_ptr,
    {
        Sphere { center, radius, mat_ptr }
    }

    /// Picks the root at which a ray is taken to meet the sphere.
    pub fn root(
        &self,
        discriminant: Scalar,
        near: Scalar,
        far: Scalar,
        t_min: Scalar,
        t_max: Scalar,
    ) -> (out: Option<Scalar>)
        ensures
            out == accepted_root(discriminant, near, far, t_min, t_max),
    {
        if discriminant.lt(Scalar::from_bits(0)) {
            None
        } else if t_min.lt(near) && near.lt(t_max) {
            Some(near)
        } else if t_min.lt(far) && far.lt(t_max) {
            Some(far)
        } else {
            None
        }
    }

    /// The record of a hit at parameter `t`, where the ray is at `p`.
    /// `outward_normal` is `(p - center) / radius` and `facing` its dot
    /// product with the ray's direction; the record's normal is turned
    /// against the ray and the record borrows the sphere's material.
    pub fn record<'a>(
        &'a self,
        t: Scalar,
        p: Point3,
        outward_normal: Vec3,
        facing: Scalar,
    ) -> (out: HitRecord<'a, M>)
        ensures
            out.t == t,
            out.p == p,
            out.mat_ptr == &*self.mat_ptr,
            out.front_face == facing.less(Scalar::zero()),
            out.normal == if facing.less(Scalar::zero()) {
                outward_normal
            } else {
                outward_normal.negated()
            },
    {
        let mut rec = HitRecord {
            p,
            normal: outward_normal,
            t,
            front_face: true,
            mat_ptr: &*self.mat_ptr,
        };
        rec.set_face_normal(facing, outward_normal);
        rec
    }
}

} // verus!
