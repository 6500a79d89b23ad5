//! Rays: a half-line given by where it starts and where it heads.
use vstd::prelude::*;
use crate::vec::{Point3, Vec3};

verus! {

/// The points `origin + t * direction`. The direction need not have unit
/// length.
#[derive(Clone, Copy, Debug)]
pub struct Ray {
    pub orig: Point3,
    pub dir: Vec3,
}

impl Ray {
    pub fn new(origin: Point3, direction: Vec3) -> (out: Ray)
        ensures
            out.orig == origin,
            out.dir == direction,
    {
        Ray { orig: origin, dir: direction }
    }

    pub fn origin(&self) -> (out: Point3)
        ensures
            out == self.orig,
    {
        self.orig
    }

    pub fn direction(&self) -> (out: Vec3)
        ensures
            out == self.dir,
    {
        self.dir
    }
}

} // verus!
