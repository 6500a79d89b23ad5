//! A scene: the objects a ray is tested against, and the search for the
//! nearest one that it meets.
use vstd::prelude::*;
use crate::hittable::{within, HitRecord, Hittable};
use crate::ray::Ray;
use crate::scalar::Scalar;

verus! {

/// An ordered collection of objects.
pub struct HittableList<H: Hittable + ?Sized> {
    pub objects: Vec<Box<H>>,
}

impl<H: Hittable + ?Sized> HittableList<H> {
    /// Whether `r` meets no object at a parameter strictly between `t_min`
    /// and `t_max`.
    pub open spec fn misses(&self, r: Ray, t_min: Scalar, t_max: Scalar) -> bool {
        forall|i: int, rec: HitRecord<H::Mat>|
            0 <= i < self.objects@.len() && #[trigger] self.objects@[i].crossing(r, rec)
                ==> !within(rec.t, t_min, t_max)
    }

    /// Whether the objects added before the `i`-th are met, within the
    /// window, only strictly beyond the parameter `t`.
    pub open spec fn clear_before(
        &self,
        r: Ray,
        i: int,
        t: Scalar,
        t_min: Scalar,
        t_max: Scalar,
    ) -> bool {
        forall|j: int, other: HitRecord<H::Mat>|
            0 <= j < i && #[trigger] self.objects@[j].crossing(r, other) && within(
                other.t,
                t_min,
                t_max,
            ) ==> t.less(other.t)
    }

    /// Whether `rec` is a nearest crossing of `r` with the scene, among those
    /// whose parameter lies strictly between `t_min` and `t_max`: it is a
    /// crossing with some object, in the window, and no crossing in the
    /// window is nearer. Of the objects met at that parameter, the one added
    /// first gives the record.
    pub open spec fn nearest(
        &self,
        r: Ray,
        rec: HitRecord<H::Mat>,
        t_min: Scalar,
        t_max: Scalar,
    ) -> bool {
        &&& within(rec.t, t_min, t_max)
        &&& exists|i: int|
            0 <= i < self.objects@.len() && #[trigger] self.objects@[i].crossing(r, rec)
                && self.clear_before(r, i, rec.t, t_min, t_max)
        &&& forall|i: int, other: HitRecord<H::Mat>|
            0 <= i < self.objects@.len() && #[trigger] self.objects@[i].crossing(r, other)
                && within(other.t, t_min, t_max) ==> !other.t.less(rec.t)
    }

    /// The empty scene.
    pub fn new() -> (out: Self)
        ensures
            out.objects@.len() == 0,
    {
        HittableList { objects: Vec::new() }
    }

    /// Removes every object.
    pub fn clear(&mut self)
        ensures
            final(self).objects@.len() == 0,
    {
        self.objects.clear();
    }

    /// Appends an object.
    pub fn add(&mut self, obj: Box<H>)
        ensures
            final(self).objects@ == old(self).objects@.push(obj),
    {
        self.objects.push(obj);
    }

    /// The nearest crossing of `r` with any object, among those whose
    /// parameter lies strictly between `t_min` and `t_max`; `None` exactly
    /// where no object has one. No crossing in that window is nearer than the
    /// one returned, whatever the order in which the objects were added. The
    /// order only breaks ties: of several objects met at the same nearest
    /// parameter, the one added first gives the record.
    pub fn hit<'a>(&'a self, r: &Ray, t_min: Scalar, t_max: Scalar) -> (out: Option<
        HitRecord<'a, H::Mat>,
    >)
        ensures
            out is None <==> self.misses(*r, t_min, t_max),
            out matches Some(rec) ==> self.nearest(*r, rec, t_min, t_max),
    {
        let mut rec: Option<HitRecord<'a, H::Mat>> = None;
        let mut closest_so_far: Scalar = t_max;
        let mut k: usize = 0;
        let ghost mut source: int = 0;
        while k < self.objects.len()
            invariant
                k <= self.objects@.len(),
                rec is None ==> closest_so_far == t_max,
                rec is None ==> forall|i: int, other: HitRecord<H::Mat>|
                    0 <= i < k && #[trigger] self.objects@[i].crossing(*r, other) ==> !within(
                        other.t,
                        t_min,
                        t_max,
                    ),
                rec matches Some(best) ==> {
                    &&& closest_so_far == best.t
                    &&& within(best.t, t_min, t_max)
                    &&& 0 <= source < k
                    &&& self.objects@[source].crossing(*r, best)
                    &&& self.clear_before(*r, source, best.t, t_min, t_max)
                    &&& forall|i: int, other: HitRecord<H::Mat>|
                        0 <= i < k && #[trigger] self.objects@[i].crossing(*r, other) && within(
                            other.t,
                            t_min,
                            t_max,
                        ) ==> !other.t.less(best.t)
                },
            decreases self.objects@.len() - k,
        {
            let found = self.objects[k].hit(r, t_min, closest_so_far);
            if let Some(h) = found {
                closest_so_far = h.t;
                rec = Some(h);
                proof {
                    source = k as int;
                }
            }
            k += 1;
        }
        rec
    }
}

/// The order in which objects were added does not change where a ray is
/// met: two scenes of the same objects miss the same rays, and their nearest
/// crossings of a ray lie at the same parameter.
pub proof fn lemma_order_of_objects_is_irrelevant<H: Hittable + ?Sized>(
    a: HittableList<H>,
    b: HittableList<H>,
    r: Ray,
    t_min: Scalar,
    t_max: Scalar,
    in_a: HitRecord<H::Mat>,
    in_b: HitRecord<H::Mat>,
)
    requires
        forall|x: Box<H>| a.objects@.contains(x) <==> b.objects@.contains(x),
    ensures
        a.misses(r, t_min, t_max) <==> b.misses(r, t_min, t_max),
        a.nearest(r, in_a, t_min, t_max) && b.nearest(r, in_b, t_min, t_max) ==> in_a.t.rank()
            == in_b.t.rank(),
{
    assert forall|i: int| 0 <= i < a.objects@.len() implies b.objects@.contains(
        #[trigger] a.objects@[i],
    ) by {
        assert(a.objects@.contains(a.objects@[i]));
    }
    assert forall|j: int| 0 <= j < b.objects@.len() implies a.objects@.contains(
        #[trigger] b.objects@[j],
    ) by {
        assert(b.objects@.contains(b.objects@[j]));
    }
    if a.misses(r, t_min, t_max) {
        assert forall|j: int, rec: HitRecord<H::Mat>|
            0 <= j < b.objects@.len() && #[trigger] b.objects@[j].crossing(r, rec) implies !within(
            rec.t,
            t_min,
            t_max,
        ) by {
            let i = choose|i: int| 0 <= i < a.objects@.len() && a.objects@[i] == b.objects@[j];
            assert(a.objects@[i].crossing(r, rec));
        }
    }
    if b.misses(r, t_min, t_max) {
        assert forall|i: int, rec: HitRecord<H::Mat>|
            0 <= i < a.objects@.len() && #[trigger] a.objects@[i].crossing(r, rec) implies !within(
            rec.t,
            t_min,
            t_max,
        ) by {
            let j = choose|j: int| 0 <= j < b.objects@.len() && b.objects@[j] == a.objects@[i];
            assert(b.objects@[j].crossing(r, rec));
        }
    }
    if a.nearest(r, in_a, t_min, t_max) && b.nearest(r, in_b, t_min, t_max) {
        let i = choose|i: int|
            0 <= i < a.objects@.len() && #[trigger] a.objects@[i].crossing(r, in_a)
                && a.clear_before(r, i, in_a.t, t_min, t_max);
        let j = choose|j: int|
            0 <= j < b.objects@.len() && #[trigger] b.objects@[j].crossing(r, in_b)
                && b.clear_before(r, j, in_b.t, t_min, t_max);
        let i_in_b = choose|k: int| 0 <= k < b.objects@.len() && b.objects@[k] == a.objects@[i];
        let j_in_a = choose|k: int| 0 <= k < a.objects@.len() && a.objects@[k] == b.objects@[j];
        assert(b.objects@[i_in_b].crossing(r, in_a));
        assert(a.objects@[j_in_a].crossing(r, in_b));
    }
}

/// Whether no two objects of `world` are met by `r` at one parameter within
/// the window.
pub open spec fn no_ties<H: Hittable + ?Sized>(
    world: HittableList<H>,
    r: Ray,
    t_min: Scalar,
    t_max: Scalar,
) -> bool {
    forall|i: int, j: int, first: HitRecord<H::Mat>, second: HitRecord<H::Mat>|
        #![trigger world.objects@[i].crossing(r, first), world.objects@[j].crossing(r, second)]
        0 <= i < world.objects@.len() && 0 <= j < world.objects@.len() && i != j
            && world.objects@[i].crossing(r, first) && world.objects@[j].crossing(r, second)
            && within(first.t, t_min, t_max) && within(second.t, t_min, t_max) ==> first.t.rank()
            != second.t.rank()
}

/// Whether each object of `world` is met by `r` in at most one way at any
/// one parameter within the window.
pub open spec fn one_crossing_each<H: Hittable + ?Sized>(
    world: HittableList<H>,
    r: Ray,
    t_min: Scalar,
    t_max: Scalar,
) -> bool {
    forall|i: int, first: HitRecord<H::Mat>, second: HitRecord<H::Mat>|
        #![trigger world.objects@[i].crossing(r, first), world.objects@[i].crossing(r, second)]
        0 <= i < world.objects@.len() && world.objects@[i].crossing(r, first)
            && world.objects@[i].crossing(r, second) && within(first.t, t_min, t_max) && within(
            second.t,
            t_min,
            t_max,
        ) && first.t.rank() == second.t.rank() ==> first == second
}

/// Where no two objects tie and each object is met in one way only, the
/// order in which the objects were added does not change the record: the
/// nearest crossings of a ray in two scenes of the same objects are the same
/// record, with the same point, normal, side and material.
pub proof fn lemma_order_of_objects_leaves_the_record<H: Hittable + ?Sized>(
    a: HittableList<H>,
    b: HittableList<H>,
    r: Ray,
    t_min: Scalar,
    t_max: Scalar,
    in_a: HitRecord<H::Mat>,
    in_b: HitRecord<H::Mat>,
)
    requires
        forall|x: Box<H>| a.objects@.contains(x) <==> b.objects@.contains(x),
        no_ties(a, r, t_min, t_max),
        one_crossing_each(a, r, t_min, t_max),
        a.nearest(r, in_a, t_min, t_max),
        b.nearest(r, in_b, t_min, t_max),
    ensures
        in_a == in_b,
{
    lemma_order_of_objects_is_irrelevant(a, b, r, t_min, t_max, in_a, in_b);
    let i = choose|i: int|
        0 <= i < a.objects@.len() && #[trigger] a.objects@[i].crossing(r, in_a) && a.clear_before(
            r,
            i,
            in_a.t,
            t_min,
            t_max,
        );
    let j = choose|j: int|
        0 <= j < b.objects@.len() && #[trigger] b.objects@[j].crossing(r, in_b) && b.clear_before(
            r,
            j,
            in_b.t,
            t_min,
            t_max,
        );
    assert(b.objects@.contains(b.objects@[j]));
    let k = choose|k: int| 0 <= k < a.objects@.len() && a.objects@[k] == b.objects@[j];
    assert(a.objects@[k].crossing(r, in_b));
    assert(a.objects@[i].crossing(r, in_a));
    if i != k {
        assert(in_a.t.rank() != in_b.t.rank());
    }
}

impl<H: Hittable + ?Sized> Hittable for HittableList<H> {
    type Mat = H::Mat;

    /// A scene is met where one of its objects is.
    open spec fn crossing(&self, r: Ray, rec: HitRecord<H::Mat>) -> bool {
        exists|i: int| 0 <= i < self.objects@.len() && #[trigger] self.objects@[i].crossing(r, rec)
    }

    /// A scene is itself an object: scenes nest.
    fn hit<'a>(&'a self, r: &Ray, t_min: Scalar, t_max: Scalar) -> (out: Option<
        HitRecord<'a, H::Mat>,
    >) {
        let out = HittableList::hit(self, r, t_min, t_max);
        proof {
            if out is Some {
                let rec = out->Some_0;
                let i = choose|i: int|
                    0 <= i < self.objects@.len() && #[trigger] self.objects@[i].crossing(*r, rec)
                        && self.clear_before(*r, i, rec.t, t_min, t_max);
                assert(self.objects@[i].crossing(*r, rec));
            }
        }
        out
    }
}

} // verus!
