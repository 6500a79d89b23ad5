//! The colour integrator: the path that light takes back along a ray.
//!
//! A ray is followed from surface to surface until the bounce budget runs
//! out, a surface swallows it, or it leaves the scene. What is kept is each
//! bounce and how the path ended; the colour of the ray is the product of
//! the attenuations and of the light at the path's end.
//!
//! The surfaces take their choices from a source of random draws, which is
//! threaded through the trace: the path depends on the scene, the ray, the
//! budget and the state of the source, and on nothing else.
use vstd::prelude::*;
use crate::hittable::{HitRecord, Hittable};
use crate::hittablelist::HittableList;
use crate::material::Material;
use crate::ray::Ray;
use crate::scalar::{Scalar, INFINITY_BITS};
use crate::vec::{Color, Vec3};

verus! {

/// The pattern of `0.001`: a crossing nearer than this to a ray's origin is
/// taken for the surface that the ray has just left.
pub const T_MIN_BITS: u64 = 0x3f50_624d_d2f1_a9fc;

/// One scattering of a ray at a surface.
pub struct Bounce {
    /// The colour by which the surface tints the light.
    pub attenuation: Color,
    /// The ray that leaves the surface.
    pub scattered: Ray,
}

/// Black: `0.0` in every channel.
pub open spec fn black() -> Color {
    Vec3 { x: Scalar::zero(), y: Scalar::zero(), z: Scalar::zero() }
}

/// How a light path ends.
pub enum PathEnd {
    /// The bounce budget ran out: the path carries no light.
    Exhausted,
    /// A surface swallowed the ray: the path carries no light.
    Absorbed,
    /// The ray left the scene: the path carries the light of the sky along
    /// that ray.
    Sky(Ray),
}

impl PathEnd {
    /// The light at an end that needs no arithmetic: black, which is zero in
    /// every channel, where the budget ran out or a surface swallowed the
    /// ray. The light of the sky is for the caller to work out, along the
    /// ray that the end holds.
    pub open spec fn own_light(self) -> Option<Color> {
        match self {
            PathEnd::Exhausted => Some(black()),
            PathEnd::Absorbed => Some(black()),
            PathEnd::Sky(_) => None,
        }
    }

    /// The light at the end of the path, where it is black; `None` for the
    /// sky.
    pub fn light(&self) -> (out: Option<Color>)
        ensures
            out == self.own_light(),
    {
        let zero = Scalar::from_bits(0);
        match self {
            PathEnd::Exhausted => Some(Vec3::new(zero, zero, zero)),
            PathEnd::Absorbed => Some(Vec3::new(zero, zero, zero)),
            PathEnd::Sky(_) => None,
        }
    }
}

/// The way of a ray through a scene.
pub struct LightPath {
    /// The bounces, the first one first.
    pub bounces: Vec<Bounce>,
    /// What the last ray of the path ran into.
    pub end: PathEnd,
}

/// Whether `r` meets nothing in `world` that counts as a hit.
pub open spec fn escapes<H: Hittable + ?Sized>(world: HittableList<H>, r: Ray) -> bool {
    world.misses(r, Scalar { bits: T_MIN_BITS }, Scalar::infinity())
}

/// Whether the surface that `r` meets first in `world`, asked with the
/// source in the state `before`, may give the answer `out` and leave the
/// source in the state `after`: it is the answer of the material of a
/// nearest crossing, asked about the ray, the point of the crossing, the
/// normal there and the side.
pub open spec fn answers<H: Hittable + ?Sized>(
    world: HittableList<H>,
    r: Ray,
    before: <H::Mat as Material>::Source,
    out: Option<(Color, Ray)>,
    after: <H::Mat as Material>::Source,
) -> bool {
    exists|rec: HitRecord<H::Mat>| #[trigger]
        world.nearest(r, rec, Scalar { bits: T_MIN_BITS }, Scalar::infinity())
            && rec.mat_ptr.scatters(r, rec.p, rec.normal, rec.front_face, before, out, after)
}

/// Whether a ray `r`, traced through `world` with a budget of `depth`
/// bounces and the source in the state `before`, can have taken the path
/// with these bounces and this end, leaving the source in the state `after`.
/// With no budget the path is exhausted at once, and a ray that meets
/// nothing ends in the sky; neither touches the source. A ray that meets a
/// surface is either swallowed there or goes on as the scattered ray of its
/// first bounce, attenuated as the surface answered, with one bounce less to
/// spend and the source as the surface left it.
pub open spec fn follows<H: Hittable + ?Sized>(
    world: HittableList<H>,
    r: Ray,
    depth: nat,
    before: <H::Mat as Material>::Source,
    bounces: Seq<Bounce>,
    end: PathEnd,
    after: <H::Mat as Material>::Source,
) -> bool
    decreases depth,
{
    if depth == 0 {
        bounces.len() == 0 && end is Exhausted && after == before
    } else if escapes(world, r) {
        bounces.len() == 0 && end == PathEnd::Sky(r) && after == before
    } else if bounces.len() == 0 {
        end is Absorbed && answers(world, r, before, None, after)
    } else {
        exists|between: <H::Mat as Material>::Source| #[trigger]
            answers(
                world,
                r,
                before,
                Some((bounces[0].attenuation, bounces[0].scattered)),
                between,
            ) && follows(
                world,
                bounces[0].scattered,
                (depth - 1) as nat,
                between,
                bounces.skip(1),
                end,
                after,
            )
    }
}

/// A path never holds more bounces than the budget allowed, and it is
/// exhausted exactly when it spent them all.
pub proof fn lemma_path_length<H: Hittable + ?Sized>(
    world: HittableList<H>,
    r: Ray,
    depth: nat,
    before: <H::Mat as Material>::Source,
    bounces: Seq<Bounce>,
    end: PathEnd,
    after: <H::Mat as Material>::Source,
)
    requires
        follows(world, r, depth, before, bounces, end, after),
    ensures
        bounces.len() <= depth,
        end is Exhausted <==> bounces.len() == depth,
    decreases depth,
{
    if depth > 0 && !escapes(world, r) && bounces.len() > 0 {
        let between = choose|between: <H::Mat as Material>::Source| #[trigger]
            answers(
                world,
                r,
                before,
                Some((bounces[0].attenuation, bounces[0].scattered)),
                between,
            ) && follows(
                world,
                bounces[0].scattered,
                (depth - 1) as nat,
                between,
                bounces.skip(1),
                end,
                after,
            );
        lemma_path_length(
            world,
            bounces[0].scattered,
            (depth - 1) as nat,
            between,
            bounces.skip(1),
            end,
            after,
        );
    }
}

/// Whether no surface of `world` has a choice of its own: the answer that a
/// ray gets from the surface that it meets first, and the state in which
/// the source is left, depend on the ray and on the state of the source
/// alone.
pub open spec fn single_valued<H: Hittable + ?Sized>(world: HittableList<H>) -> bool {
    forall|
        r: Ray,
        before: <H::Mat as Material>::Source,
        first: Option<(Color, Ray)>,
        after_first: <H::Mat as Material>::Source,
        second: Option<(Color, Ray)>,
        after_second: <H::Mat as Material>::Source,
    |
        #![trigger answers(world, r, before, first, after_first), answers(world, r, before, second, after_second)]
        answers(world, r, before, first, after_first) && answers(
            world,
            r,
            before,
            second,
            after_second,
        ) ==> first == second && after_first == after_second
}

/// Two traces of one ray through one scene with one budget, started with the
/// source of draws in one state, take the same path and leave the source in
/// the same state, as long as the surfaces take their choices from the
/// source alone.
pub proof fn lemma_path_is_determined<H: Hittable + ?Sized>(
    world: HittableList<H>,
    r: Ray,
    depth: nat,
    before: <H::Mat as Material>::Source,
    bounces: Seq<Bounce>,
    end: PathEnd,
    after: <H::Mat as Material>::Source,
    other_bounces: Seq<Bounce>,
    other_end: PathEnd,
    other_after: <H::Mat as Material>::Source,
)
    requires
        single_valued(world),
        follows(world, r, depth, before, bounces, end, after),
        follows(world, r, depth, before, other_bounces, other_end, other_after),
    ensures
        bounces == other_bounces,
        end == other_end,
        after == other_after,
    decreases depth,
{
    if depth > 0 && !escapes(world, r) {
        if bounces.len() == 0 {
            assert(answers(world, r, before, None, after));
            if other_bounces.len() > 0 {
                let between = choose|between: <H::Mat as Material>::Source| #[trigger]
                    answers(
                        world,
                        r,
                        before,
                        Some((other_bounces[0].attenuation, other_bounces[0].scattered)),
                        between,
                    ) && follows(
                        world,
                        other_bounces[0].scattered,
                        (depth - 1) as nat,
                        between,
                        other_bounces.skip(1),
                        other_end,
                        other_after,
                    );
                assert(false);
            }
        } else {
            let between = choose|between: <H::Mat as Material>::Source| #[trigger]
                answers(
                    world,
                    r,
                    before,
                    Some((bounces[0].attenuation, bounces[0].scattered)),
                    between,
                ) && follows(
                    world,
                    bounces[0].scattered,
                    (depth - 1) as nat,
                    between,
                    bounces.skip(1),
                    end,
                    after,
                );
            if other_bounces.len() == 0 {
                assert(answers(world, r, before, None, other_after));
                assert(false);
            } else {
                let other_between = choose|between: <H::Mat as Material>::Source| #[trigger]
                    answers(
                        world,
                        r,
                        before,
                        Some((other_bounces[0].attenuation, other_bounces[0].scattered)),
                        between,
                    ) && follows(
                        world,
                        other_bounces[0].scattered,
                        (depth - 1) as nat,
                        between,
                        other_bounces.skip(1),
                        other_end,
                        other_after,
                    );
                assert(between == other_between);
                assert(bounces[0] == other_bounces[0]);
                lemma_path_is_determined(
                    world,
                    bounces[0].scattered,
                    (depth - 1) as nat,
                    between,
                    bounces.skip(1),
                    end,
                    after,
                    other_bounces.skip(1),
                    other_end,
                    other_after,
                );
                assert(bounces =~= seq![bounces[0]] + bounces.skip(1));
                assert(other_bounces =~= seq![other_bounces[0]] + other_bounces.skip(1));
            }
        }
    }
    assert(bounces =~= other_bounces);
}

/// In a scene without objects every ray escapes.
pub proof fn lemma_empty_scene_escapes<H: Hittable + ?Sized>(world: HittableList<H>, r: Ray)
    requires
        world.objects@.len() == 0,
    ensures
        escapes(world, r),
{
}

/// Traces `r` through `world`, spending at most `depth` bounces and taking
/// the surfaces' random draws from `source`.
///
/// With `depth == 0` the path is empty and exhausted, whatever the ray and
/// the scene: no bounce attenuates its light, which is black. With a budget,
/// a ray that meets nothing in the scene ends in the sky at once, as every
/// ray does in a scene without objects. Neither touches the source.
pub fn ray_color<H: Hittable + ?Sized>(
    r: &Ray,
    world: &HittableList<H>,
    depth: u64,
    source: &mut <H::Mat as Material>::Source,
) -> (out: LightPath)
    ensures
        follows(*world, *r, depth as nat, *old(source), out.bounces@, out.end, *final(source)),
        depth == 0 ==> out.bounces@.len() == 0 && out.end is Exhausted && out.end.own_light()
            == Some(black()) && *final(source) == *old(source),
        depth > 0 && escapes(*world, *r) ==> out.bounces@.len() == 0 && out.end == PathEnd::Sky(
            *r,
        ) && *final(source) == *old(source),
        depth > 0 && world.objects@.len() == 0 ==> out.bounces@.len() == 0 && out.end
            == PathEnd::Sky(*r) && *final(source) == *old(source),
        out.bounces@.len() <= depth,
{
    let ghost start = *source;
    let mut bounces: Vec<Bounce> = Vec::new();
    let mut ray: Ray = *r;
    let mut left: u64 = depth;
    let mut end: Option<PathEnd> = None;
    let ghost mut at_end = *source;
    while end.is_none()
        invariant
            left <= depth,
            end is None ==> forall|
                rest: Seq<Bounce>,
                e: PathEnd,
                last: <H::Mat as Material>::Source,
            | #[trigger]
                follows(*world, ray, left as nat, *source, rest, e, last) ==> follows(
                    *world,
                    *r,
                    depth as nat,
                    start,
                    bounces@ + rest,
                    e,
                    last,
                ),
            end matches Some(e) ==> follows(
                *world,
                ray,
                left as nat,
                at_end,
                Seq::empty(),
                e,
                *source,
            ) && forall|
                rest: Seq<Bounce>,
                e: PathEnd,
                last: <H::Mat as Material>::Source,
            | #[trigger]
                follows(*world, ray, left as nat, at_end, rest, e, last) ==> follows(
                    *world,
                    *r,
                    depth as nat,
                    start,
                    bounces@ + rest,
                    e,
                    last,
                ),
        decreases left + (if end is None { 1int } else { 0int }),
    {
        proof {
            at_end = *source;
        }
        if left == 0 {
            end = Some(PathEnd::Exhausted);
        } else {
            let found = world.hit(
                &ray,
                Scalar::from_bits(T_MIN_BITS),
                Scalar::from_bits(INFINITY_BITS),
            );
            match found {
                None => {
                    end = Some(PathEnd::Sky(ray));
                },
                Some(rec) => {
                    let ghost asked = *source;
                    let answer = rec.mat_ptr.scatter(
                        &ray,
                        rec.p,
                        rec.normal,
                        rec.front_face,
                        source,
                    );
                    assert(answers(*world, ray, asked, answer, *source)) by {
                        assert(world.nearest(
                            ray,
                            rec,
                            Scalar { bits: T_MIN_BITS },
                            Scalar::infinity(),
                        ));
                    }
                    match answer {
                        None => {
                            end = Some(PathEnd::Absorbed);
                        },
                        Some((attenuation, scattered)) => {
                            let bounce = Bounce { attenuation, scattered };
                            let remaining: u64 = left - 1;
                            proof {
                                let before = bounces@;
                                let now = *source;
                                assert forall|
                                    rest: Seq<Bounce>,
                                    e: PathEnd,
                                    last: <H::Mat as Material>::Source,
                                | #[trigger]
                                    follows(
                                        *world,
                                        scattered,
                                        remaining as nat,
                                        now,
                                        rest,
                                        e,
                                        last,
                                    ) implies follows(
                                    *world,
                                    *r,
                                    depth as nat,
                                    start,
                                    before.push(bounce) + rest,
                                    e,
                                    last,
                                ) by {
                                    let longer = seq![bounce] + rest;
                                    assert(longer.skip(1) =~= rest);
                                    assert(longer[0] == bounce);
                                    assert(answers(
                                        *world,
                                        ray,
                                        asked,
                                        Some((longer[0].attenuation, longer[0].scattered)),
                                        now,
                                    ));
                                    assert(follows(
                                        *world,
                                        ray,
                                        left as nat,
                                        asked,
                                        longer,
                                        e,
                                        last,
                                    ));
                                    assert(before + longer =~= before.push(bounce) + rest);
                                }
                            }
                            bounces.push(bounce);
                            ray = scattered;
                            left = remaining;
                        },
                    }
                },
            }
        }
    }
    let end = end.unwrap();
    proof {
        assert(bounces@ + Seq::<Bounce>::empty() =~= bounces@);
        lemma_path_length(*world, *r, depth as nat, start, bounces@, end, *source);
    }
    LightPath { bounces, end }
}

} // verus!
