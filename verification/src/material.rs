//! Surface materials: what becomes of a ray where it meets a surface.
//!
//! The three materials decide here; the directions they choose between are
//! measured by the caller, who owns the arithmetic and the random source.
use vstd::prelude::*;
use crate::ray::Ray;
use crate::scalar::{Scalar, ONE_BITS};
use crate::vec::{Color, Point3, Vec3};

verus! {

/// A surface material.
///
/// A material takes its choices from a source of random draws, which is
/// handed to it and which it hands back advanced. `scatters` is the
/// material's model: it says which answers the material may give, and in
/// which state it may leave the source; `scatter` is held to it. It is never
/// run. An implementation compiled without the verifier still has to give it
/// a body, which may simply be unreachable. The three materials of this
/// module each say what they may answer, in `may_answer`.
pub trait Material {
    /// The source of random draws.
    type Source;

    /// Whether this material, asked about the ray `r` that meets it at `p`
    /// with the source in the state `before`, may answer `out` and leave
    /// the source in the state `after`.
    spec fn scatters(
        &self,
        r: Ray,
        p: Point3,
        normal: Vec3,
        front_face: bool,
        before: Self::Source,
        out: Option<(Color, Ray)>,
        after: Self::Source,
    ) -> bool;

    /// What becomes of the ray `r` that meets the surface at `p`, where the
    /// normal turned against the ray is `normal` and `front_face` tells
    /// whether the ray came from outside: the attenuation and the ray that
    /// leaves the surface, or `None` where the surface swallows the ray.
    /// Random draws are taken from `source`.
    fn scatter(
        &self,
        r: &Ray,
        p: Point3,
        normal: Vec3,
        front_face: bool,
        source: &mut Self::Source,
    ) -> (out: Option<(Color, Ray)>)
        ensures
            self.scatters(*r, p, normal, front_face, *old(source), out, *final(source)),
    ;
}

/// A matte surface.
pub struct Lambertian {
    pub albedo: Color,
}

impl Lambertian {
    /// What a matte surface may answer to a ray that meets it at `p`, where
    /// the normal is `normal`: it never swallows the ray, it tints by its
    /// albedo, and the ray goes on from `p`, along the normal or along a
    /// direction that is not too short to be one.
    pub open spec fn may_answer(&self, p: Point3, normal: Vec3, out: Option<(Color, Ray)>) -> bool {
        &&& out matches Some(answer)
        &&& answer.0 == self.albedo
        &&& answer.1.orig == p
        &&& answer.1.dir == normal || !answer.1.dir.is_near_zero()
    }

    pub fn new(a: Color) -> (out: Self)
        ensures
            out.albedo == a,
    {
        Lambertian { albedo: a }
    }

    /// Scatters at the point `p`, where the surface normal is `normal`.
    /// `diffuse` is the normal plus a random unit vector. Where that sum is
    /// too short to be a direction the normal itself is taken. A matte
    /// surface never swallows a ray.
    pub fn scatter(&self, p: Point3, normal: Vec3, diffuse: Vec3) -> (out: Option<(Color, Ray)>)
        ensures
            out == Some(
                (
                    self.albedo,
                    (Ray {
                        orig: p,
                        dir: if diffuse.is_near_zero() {
                            normal
                        } else {
                            diffuse
                        },
                    }),
                ),
            ),
            self.may_answer(p, normal, out),
    {
        let scatter_direction = if diffuse.near_zero() {
            normal
        } else {
            diffuse
        };
        Some((self.albedo, Ray::new(p, scatter_direction)))
    }
}

/// A polished surface, roughened by `fuzz`.
pub struct Metal {
    pub albedo: Color,
    pub fuzz: Scalar,
}

impl Metal {
    /// The fuzz is a number from zero to one.
    pub open spec fn well_formed(&self) -> bool {
        &&& !self.fuzz.is_nan()
        &&& !self.fuzz.less(Scalar::zero())
        &&& !Scalar::one().less(self.fuzz)
    }

    /// `f` held to the range from zero to one: a fuzz below zero becomes
    /// zero, one below one stays, and any other, a NaN too, becomes one.
    pub open spec fn clamped_fuzz(f: Scalar) -> Scalar {
        if f.less(Scalar::zero()) {
            Scalar::zero()
        } else if f.less(Scalar::one()) {
            f
        } else {
            Scalar::one()
        }
    }

    /// What a metal may answer to a ray that meets it at `p`: it swallows
    /// the ray, or it tints by its albedo and sends a ray on from `p`.
    pub open spec fn may_answer(&self, p: Point3, out: Option<(Color, Ray)>) -> bool {
        out matches Some(answer) ==> answer.0 == self.albedo && answer.1.orig == p
    }

    /// A metal of colour `a`, with the fuzz `f` held to the range from zero
    /// to one.
    pub fn new(a: Color, f: Scalar) -> (out: Self)
        ensures
            out.albedo == a,
            out.fuzz == Self::clamped_fuzz(f),
            out.well_formed(),
    {
        let zero = Scalar::from_bits(0);
        let one = Scalar::from_bits(ONE_BITS);
        if f.lt(zero) {
            Metal { albedo: a, fuzz: zero }
        } else if f.lt(one) {
            Metal { albedo: a, fuzz: f }
        } else {
            Metal { albedo: a, fuzz: one }
        }
    }

    /// Scatters at the point `p`. `scattered` is the mirrored direction,
    /// perturbed by the fuzz, and `outward` its dot product with the surface
    /// normal. The ray leaves only where it heads away from the surface; a
    /// ray that would enter the surface is swallowed.
    pub fn scatter(&self, p: Point3, scattered: Vec3, outward: Scalar) -> (out: Option<
        (Color, Ray),
    >)
        ensures
            out == if Scalar::zero().less(outward) {
                Some((self.albedo, (Ray { orig: p, dir: scattered })))
            } else {
                None
            },
            self.may_answer(p, out),
    {
        if outward.gt(Scalar::from_bits(0)) {
            Some((self.albedo, Ray::new(p, scattered)))
        } else {
            None
        }
    }
}

/// A clear surface that bends light, such as glass.
pub struct Dielectric {
    pub ir: Scalar,
}

impl Dielectric {
    pub fn new(index_of_refraction: Scalar) -> (out: Self)
        ensures
            out.ir == index_of_refraction,
    {
        Dielectric { ir: index_of_refraction }
    }

    /// The ratio of refractive indices that a ray crosses: `inverse`, which
    /// is one over the index, where the ray enters through the front face,
    /// and the index itself where it leaves the medium.
    pub fn refraction_rate(&self, front_face: bool, inverse: Scalar) -> (out: Scalar)
        ensures
            out == if front_face {
                inverse
            } else {
                self.ir
            },
    {
        if front_face {
            inverse
        } else {
            self.ir
        }
    }

    /// What glass may answer to a ray that meets it at `p`: it never
    /// swallows the ray and never tints it, and the ray goes on from `p`.
    pub open spec fn may_answer(&self, p: Point3, out: Option<(Color, Ray)>) -> bool {
        &&& out matches Some(answer)
        &&& answer.0 == (Vec3 { x: Scalar::one(), y: Scalar::one(), z: Scalar::one() })
        &&& answer.1.orig == p
    }

    /// Whether the ray is mirrored rather than bent. `lean` is the refraction
    /// rate times the sine of the angle of incidence: above one no refracted
    /// ray exists. Otherwise the ray is mirrored where `reflectance` exceeds
    /// `sample`, a uniform draw from `[0, 1)`.
    pub open spec fn mirrors(lean: Scalar, reflectance: Scalar, sample: Scalar) -> bool {
        Scalar::one().less(lean) || sample.less(reflectance)
    }

    /// Scatters at the point `p`: along `reflected` where the ray is
    /// mirrored, along `refracted` where it is not. Glass neither tints nor
    /// swallows: the attenuation is white.
    pub fn scatter(
        &self,
        p: Point3,
        lean: Scalar,
        reflectance: Scalar,
        sample: Scalar,
        reflected: Vec3,
        refracted: Vec3,
    ) -> (out: Option<(Color, Ray)>)
        ensures
            out == Some(
                (
                    (Vec3 { x: Scalar::one(), y: Scalar::one(), z: Scalar::one() }),
                    (Ray {
                        orig: p,
                        dir: if Self::mirrors(lean, reflectance, sample) {
                            reflected
                        } else {
                            refracted
                        },
                    }),
                ),
            ),
            self.may_answer(p, out),
    {
        let one = Scalar::from_bits(ONE_BITS);
        let cannot_refract = lean.gt(one);
        let will_reflect = reflectance.gt(sample);
        let direction = if cannot_refract || will_reflect {
            reflected
        } else {
            refracted
        };
        Some((Vec3::new(one, one, one), Ray::new(p, direction)))
    }
}

} // verus!
