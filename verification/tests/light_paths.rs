use raytracer::hittable::{HitRecord, Hittable};
use raytracer::hittablelist::HittableList;
use raytracer::integrator::{ray_color, LightPath, PathEnd, T_MIN_BITS};
use raytracer::material::{Lambertian, Material};
use raytracer::ray::Ray;
use raytracer::scalar::Scalar;
use raytracer::sphere::Sphere;
use raytracer::vec::{Color, Point3, Vec3};
use std::rc::Rc;

fn sc(x: f64) -> Scalar {
    Scalar::from_bits(x.to_bits())
}

fn fl(s: Scalar) -> f64 {
    f64::from_bits(s.to_bits())
}

fn v3(x: f64, y: f64, z: f64) -> Vec3 {
    Vec3::new(sc(x), sc(y), sc(z))
}

fn same(a: Vec3, b: Vec3) -> bool {
    a.x().to_bits() == b.x().to_bits()
        && a.y().to_bits() == b.y().to_bits()
        && a.z().to_bits() == b.z().to_bits()
}

fn dot(a: Vec3, b: Vec3) -> f64 {
    fl(a.x()) * fl(b.x()) + fl(a.y()) * fl(b.y()) + fl(a.z()) * fl(b.z())
}

fn scale(k: f64, v: Vec3) -> Vec3 {
    v3(k * fl(v.x()), k * fl(v.y()), k * fl(v.z()))
}

fn over(v: Vec3, k: f64) -> Vec3 {
    v3(fl(v.x()) / k, fl(v.y()) / k, fl(v.z()) / k)
}

fn plus(a: Vec3, b: Vec3) -> Vec3 {
    v3(fl(a.x()) + fl(b.x()), fl(a.y()) + fl(b.y()), fl(a.z()) + fl(b.z()))
}

fn minus(a: Vec3, b: Vec3) -> Vec3 {
    v3(fl(a.x()) - fl(b.x()), fl(a.y()) - fl(b.y()), fl(a.z()) - fl(b.z()))
}

fn at(r: &Ray, t: f64) -> Vec3 {
    plus(r.origin(), scale(t, r.direction()))
}

/// A source of draws that can be set back to where it was.
#[derive(Clone, Copy, Debug, PartialEq)]
struct Dice(u64);

impl Dice {
    /// The next draw, from 0 up to but not 1.
    fn next(&mut self) -> f64 {
        self.0 = self.0.wrapping_mul(6364136223846793005).wrapping_add(1442695040888963407);
        ((self.0 >> 11) as f64) / 9007199254740992.0
    }
}

/// The surfaces of these scenes.
type Surface = dyn Material<Source = Dice>;

/// A matte surface whose random unit vector is always `(0, 0, 1)`.
struct Matte(Lambertian);

impl Material for Matte {
    type Source = Dice;

    fn scatters(
        &self,
        _r: Ray,
        _p: Point3,
        _normal: Vec3,
        _front_face: bool,
        _before: Dice,
        _out: Option<(Color, Ray)>,
        _after: Dice,
    ) -> bool {
        unreachable!()
    }

    fn scatter(
        &self,
        _r: &Ray,
        p: Point3,
        normal: Vec3,
        _front_face: bool,
        _source: &mut Dice,
    ) -> Option<(Color, Ray)> {
        self.0.scatter(p, normal, plus(normal, v3(0.0, 0.0, 1.0)))
    }
}

fn matte(r: f64, g: f64, b: f64) -> Rc<Surface> {
    Rc::new(Matte(Lambertian::new(v3(r, g, b))))
}

/// A matte surface that draws its random unit vector from the source.
struct Chalk(Lambertian);

impl Material for Chalk {
    type Source = Dice;

    fn scatters(
        &self,
        _r: Ray,
        _p: Point3,
        _normal: Vec3,
        _front_face: bool,
        _before: Dice,
        _out: Option<(Color, Ray)>,
        _after: Dice,
    ) -> bool {
        unreachable!()
    }

    fn scatter(
        &self,
        _r: &Ray,
        p: Point3,
        normal: Vec3,
        _front_face: bool,
        source: &mut Dice,
    ) -> Option<(Color, Ray)> {
        let in_sphere = loop {
            let candidate = v3(
                2.0 * source.next() - 1.0,
                2.0 * source.next() - 1.0,
                2.0 * source.next() - 1.0,
            );
            let kept = Vec3::random_in_unit_sphere(candidate, sc(dot(candidate, candidate)));
            if let Some(kept) = kept {
                break kept;
            }
        };
        let unit = over(in_sphere, dot(in_sphere, in_sphere).sqrt());
        self.0.scatter(p, normal, plus(normal, unit))
    }
}

fn chalk(r: f64, g: f64, b: f64) -> Rc<Surface> {
    Rc::new(Chalk(Lambertian::new(v3(r, g, b))))
}

/// A surface that swallows every ray.
struct Soot;

impl Material for Soot {
    type Source = Dice;

    fn scatters(
        &self,
        _r: Ray,
        _p: Point3,
        _normal: Vec3,
        _front_face: bool,
        _before: Dice,
        _out: Option<(Color, Ray)>,
        _after: Dice,
    ) -> bool {
        unreachable!()
    }

    fn scatter(
        &self,
        _r: &Ray,
        _p: Point3,
        _normal: Vec3,
        _front_face: bool,
        _source: &mut Dice,
    ) -> Option<(Color, Ray)> {
        None
    }
}

/// A sphere with its arithmetic.
struct Ball(Sphere<Surface>);

impl Hittable for Ball {
    type Mat = Surface;

    fn crossing(&self, _r: Ray, _rec: HitRecord<Surface>) -> bool {
        unreachable!()
    }

    fn hit<'a>(&'a self, r: &Ray, t_min: Scalar, t_max: Scalar) -> Option<HitRecord<'a, Surface>> {
        let radius = fl(self.0.radius);
        let oc = minus(r.origin(), self.0.center);
        let a = dot(r.direction(), r.direction());
        let half_b = dot(oc, r.direction());
        let c = dot(oc, oc) - radius * radius;
        let discriminant = half_b * half_b - a * c;
        let sqrtd = discriminant.sqrt();
        let near = (-half_b - sqrtd) / a;
        let far = (-half_b + sqrtd) / a;
        let t = self.0.root(sc(discriminant), sc(near), sc(far), t_min, t_max)?;
        let p = at(r, fl(t));
        let outward_normal = over(minus(p, self.0.center), radius);
        Some(self.0.record(t, p, outward_normal, sc(dot(r.direction(), outward_normal))))
    }
}

type Scene = HittableList<dyn Hittable<Mat = Surface>>;

fn ball(center: Vec3, radius: f64, mat: Rc<Surface>) -> Box<dyn Hittable<Mat = Surface>> {
    Box::new(Ball(Sphere::new(center, sc(radius), mat)))
}

fn black() -> Vec3 {
    v3(0.0, 0.0, 0.0)
}

fn times(a: Vec3, b: Vec3) -> Vec3 {
    v3(fl(a.x()) * fl(b.x()), fl(a.y()) * fl(b.y()), fl(a.z()) * fl(b.z()))
}

fn sky(r: &Ray) -> Vec3 {
    let d = r.direction();
    let unit_direction = over(d, dot(d, d).sqrt());
    let t = 0.5 * (fl(unit_direction.y()) + 1.0);
    plus(scale(1.0 - t, v3(1.0, 1.0, 1.0)), scale(t, v3(0.5, 0.7, 1.0)))
}

/// The colour that a path carries: the light at its end, attenuated by each
/// bounce from the last to the first.
fn colour(path: &LightPath) -> Vec3 {
    let mut c = match &path.end {
        PathEnd::Sky(r) => sky(r),
        dark => dark.light().unwrap(),
    };
    for bounce in path.bounces.iter().rev() {
        c = times(bounce.attenuation, c);
    }
    c
}

fn two_spheres() -> Scene {
    let mut world: Scene = HittableList::new();
    world.add(ball(v3(0.0, 0.0, -1.0), 0.5, matte(0.5, 0.5, 0.5)));
    world.add(ball(v3(0.0, -100.5, -1.0), 100.0, matte(0.8, 0.8, 0.0)));
    world
}

fn rays() -> Vec<Ray> {
    vec![
        Ray::new(v3(0.0, 0.0, 0.0), v3(0.0, 0.0, -1.0)),
        Ray::new(v3(0.0, 0.0, 0.0), v3(0.0, 1.0, 0.0)),
        Ray::new(v3(0.0, 0.0, 0.0), v3(0.0, -1.0, 0.0)),
        Ray::new(v3(1.0, 2.0, 3.0), v3(-0.5, 0.25, 8.0)),
        Ray::new(v3(0.0, 0.0, 0.0), v3(0.0, 0.0, 0.0)),
        Ray::new(v3(f64::NAN, 0.0, 0.0), v3(f64::INFINITY, 0.0, -1.0)),
    ]
}

#[test]
fn the_self_hit_bound_is_the_pattern_it_names() {
    assert_eq!(T_MIN_BITS, 0.001f64.to_bits());
}

#[test]
fn no_budget_means_black_whatever_the_ray_and_the_scene() {
    let empty: Scene = HittableList::new();
    let full = two_spheres();
    for r in rays() {
        for world in [&empty, &full] {
            let path = ray_color(&r, world, 0, &mut Dice(7));
            assert_eq!(path.bounces.len(), 0);
            assert!(matches!(path.end, PathEnd::Exhausted));
            assert!(same(colour(&path), black()));
        }
    }
}

#[test]
fn an_empty_scene_shows_the_sky_along_the_ray() {
    let world: Scene = HittableList::new();
    for depth in [1, 2, 50] {
        for r in rays() {
            let path = ray_color(&r, &world, depth, &mut Dice(7));
            assert_eq!(path.bounces.len(), 0);
            match path.end {
                PathEnd::Sky(out) => {
                    assert!(same(out.origin(), r.origin()));
                    assert!(same(out.direction(), r.direction()));
                },
                _ => panic!("the ray did not reach the sky"),
            }
        }
    }
}

#[test]
fn the_sky_is_blue_straight_up_and_white_straight_down() {
    let world: Scene = HittableList::new();
    let up = ray_color(&Ray::new(v3(0.0, 0.0, 0.0), v3(0.0, 1.0, 0.0)), &world, 50, &mut Dice(7));
    assert!(same(colour(&up), v3(0.5, 0.7, 1.0)));
    let down = ray_color(&Ray::new(v3(0.0, 0.0, 0.0), v3(0.0, -1.0, 0.0)), &world, 50, &mut Dice(7));
    assert!(same(colour(&down), v3(1.0, 1.0, 1.0)));
    let level = ray_color(&Ray::new(v3(0.0, 0.0, 0.0), v3(3.0, 0.0, -4.0)), &world, 50, &mut Dice(7));
    assert!(same(colour(&level), v3(0.75, 0.85, 1.0)));
}

#[test]
fn a_swallowed_ray_is_black() {
    let mut world: Scene = HittableList::new();
    world.add(ball(v3(0.0, 0.0, -1.0), 0.5, Rc::new(Soot)));
    let r = Ray::new(v3(0.0, 0.0, 0.0), v3(0.0, 0.0, -1.0));
    let path = ray_color(&r, &world, 50, &mut Dice(7));
    assert_eq!(path.bounces.len(), 0);
    assert!(matches!(path.end, PathEnd::Absorbed));
    assert!(same(colour(&path), black()));
}

#[test]
fn one_bounce_off_a_matte_sphere() {
    let mut world: Scene = HittableList::new();
    world.add(ball(v3(0.0, 0.0, -1.0), 0.5, matte(0.5, 0.25, 0.125)));
    let r = Ray::new(v3(0.0, 0.0, 0.0), v3(0.0, 0.0, -1.0));
    let path = ray_color(&r, &world, 50, &mut Dice(7));
    assert_eq!(path.bounces.len(), 1);
    assert!(same(path.bounces[0].attenuation, v3(0.5, 0.25, 0.125)));
    assert!(same(path.bounces[0].scattered.origin(), v3(0.0, 0.0, -0.5)));
    assert!(same(path.bounces[0].scattered.direction(), v3(0.0, 0.0, 2.0)));
    match path.end {
        PathEnd::Sky(out) => assert!(same(out.direction(), v3(0.0, 0.0, 2.0))),
        _ => panic!("the ray did not reach the sky"),
    }
    let expected = times(v3(0.5, 0.25, 0.125), v3(0.75, 0.85, 1.0));
    assert!(same(colour(&path), expected));
}

#[test]
fn a_ray_shut_in_spends_the_whole_budget() {
    let mut world: Scene = HittableList::new();
    world.add(ball(v3(0.0, 0.0, 0.0), 10.0, matte(0.5, 0.5, 0.5)));
    let r = Ray::new(v3(0.0, 0.0, 0.0), v3(0.0, 0.0, -1.0));
    for depth in [1u64, 2, 3, 7, 50] {
        let path = ray_color(&r, &world, depth, &mut Dice(7));
        assert_eq!(path.bounces.len() as u64, depth);
        assert!(matches!(path.end, PathEnd::Exhausted));
        assert!(same(colour(&path), black()));
    }
}

#[test]
fn the_budget_cuts_a_path_short() {
    let mut world: Scene = HittableList::new();
    world.add(ball(v3(0.0, 0.0, -1.0), 0.5, matte(0.5, 0.5, 0.5)));
    let r = Ray::new(v3(0.0, 0.0, 0.0), v3(0.0, 0.0, -1.0));
    let cut = ray_color(&r, &world, 1, &mut Dice(7));
    assert_eq!(cut.bounces.len(), 1);
    assert!(matches!(cut.end, PathEnd::Exhausted));
    let whole = ray_color(&r, &world, 2, &mut Dice(7));
    assert_eq!(whole.bounces.len(), 1);
    assert!(matches!(whole.end, PathEnd::Sky(_)));
}

#[test]
fn a_path_is_never_longer_than_its_budget() {
    let world = two_spheres();
    for depth in [0u64, 1, 2, 5, 50] {
        for r in rays() {
            let path = ray_color(&r, &world, depth, &mut Dice(7));
            assert!(path.bounces.len() as u64 <= depth);
            let spent = path.bounces.len() as u64 == depth;
            assert_eq!(matches!(path.end, PathEnd::Exhausted), spent);
        }
    }
}

#[test]
fn each_bounce_starts_where_the_ray_before_it_hit() {
    let world = two_spheres();
    let r = Ray::new(v3(0.0, 0.0, 0.0), v3(0.0, -0.3, -1.0));
    let path = ray_color(&r, &world, 50, &mut Dice(7));
    assert!(path.bounces.len() >= 1);
    let mut ray = r;
    for bounce in path.bounces.iter() {
        let rec = world.hit(&ray, sc(0.001), sc(f64::INFINITY)).unwrap();
        assert!(same(bounce.scattered.origin(), rec.p));
        ray = bounce.scattered;
    }
    match path.end {
        PathEnd::Sky(out) => {
            assert!(same(out.direction(), ray.direction()));
            assert!(world.hit(&out, sc(0.001), sc(f64::INFINITY)).is_none());
        },
        PathEnd::Exhausted => assert_eq!(path.bounces.len(), 50),
        PathEnd::Absorbed => panic!("a matte surface swallowed a ray"),
    }
}

#[test]
fn the_same_rays_give_the_same_picture() {
    let world = two_spheres();
    let mut first: Vec<(u64, u64, u64)> = Vec::new();
    let mut second: Vec<(u64, u64, u64)> = Vec::new();
    for run in 0..2 {
        for j in 0..9 {
            for i in 0..16 {
                let u = (i as f64) / 15.0;
                let v = (j as f64) / 8.0;
                let direction = v3(-16.0 / 9.0 + u * 32.0 / 9.0, -1.0 + v * 2.0, -1.0);
                let r = Ray::new(v3(0.0, 0.0, 0.0), direction);
                let c = colour(&ray_color(&r, &world, 50, &mut Dice(7)));
                let levels = raytracer::color::write_color(v3(
                    fl(c.x()).sqrt(),
                    fl(c.y()).sqrt(),
                    fl(c.z()).sqrt(),
                ));
                if run == 0 {
                    first.push(levels);
                } else {
                    second.push(levels);
                }
            }
        }
    }
    assert_eq!(first.len(), 144);
    assert_eq!(first, second);
}

#[test]
fn a_dark_end_is_black_and_the_sky_is_left_to_the_caller() {
    let zero = 0.0f64.to_bits();
    for end in [PathEnd::Exhausted, PathEnd::Absorbed] {
        let light = end.light().unwrap();
        assert_eq!(light.x().to_bits(), zero);
        assert_eq!(light.y().to_bits(), zero);
        assert_eq!(light.z().to_bits(), zero);
    }
    let up = Ray::new(v3(0.0, 0.0, 0.0), v3(0.0, 1.0, 0.0));
    assert!(PathEnd::Sky(up).light().is_none());
}

#[test]
fn no_budget_gives_exactly_black() {
    let world = two_spheres();
    for r in rays() {
        let path = ray_color(&r, &world, 0, &mut Dice(7));
        assert_eq!(path.bounces.len(), 0);
        let light = path.end.light().unwrap();
        assert_eq!(light.x().to_bits(), 0);
        assert_eq!(light.y().to_bits(), 0);
        assert_eq!(light.z().to_bits(), 0);
    }
}

fn chalk_spheres() -> Scene {
    let mut world: Scene = HittableList::new();
    world.add(ball(v3(0.0, 0.0, -1.0), 0.5, chalk(0.5, 0.5, 0.5)));
    world.add(ball(v3(0.0, -100.5, -1.0), 100.0, chalk(0.8, 0.8, 0.0)));
    world
}

fn picture(world: &Scene, source: &mut Dice) -> Vec<(u64, u64, u64)> {
    let mut pixels: Vec<(u64, u64, u64)> = Vec::new();
    for j in 0..9 {
        for i in 0..16 {
            let u = ((i as f64) + source.next()) / 15.0;
            let v = ((j as f64) + source.next()) / 8.0;
            let direction = v3(-16.0 / 9.0 + u * 32.0 / 9.0, -1.0 + v * 2.0, -1.0);
            let r = Ray::new(v3(0.0, 0.0, 0.0), direction);
            let c = colour(&ray_color(&r, world, 50, source));
            pixels.push(raytracer::color::write_color(v3(
                fl(c.x()).sqrt(),
                fl(c.y()).sqrt(),
                fl(c.z()).sqrt(),
            )));
        }
    }
    pixels
}

#[test]
fn the_same_draws_give_the_same_picture() {
    let world = chalk_spheres();
    let mut first_source = Dice(2024);
    let mut second_source = Dice(2024);
    let first = picture(&world, &mut first_source);
    let second = picture(&world, &mut second_source);
    assert_eq!(first.len(), 144);
    assert_eq!(first, second);
    assert_eq!(first_source, second_source);
    assert_ne!(first_source, Dice(2024));
    let other = picture(&world, &mut Dice(1));
    assert_ne!(first, other);
}

#[test]
fn the_same_draws_give_the_same_path() {
    let world = chalk_spheres();
    let r = Ray::new(v3(0.0, 0.0, 0.0), v3(0.0, -0.3, -1.0));
    let mut first_source = Dice(99);
    let mut second_source = Dice(99);
    let first = ray_color(&r, &world, 50, &mut first_source);
    let second = ray_color(&r, &world, 50, &mut second_source);
    assert!(first.bounces.len() >= 1);
    assert_eq!(first.bounces.len(), second.bounces.len());
    for k in 0..first.bounces.len() {
        assert!(same(first.bounces[k].attenuation, second.bounces[k].attenuation));
        assert!(same(first.bounces[k].scattered.origin(), second.bounces[k].scattered.origin()));
        assert!(same(
            first.bounces[k].scattered.direction(),
            second.bounces[k].scattered.direction()
        ));
    }
    assert!(same(colour(&first), colour(&second)));
    assert_eq!(first_source, second_source);
}

#[test]
fn a_path_without_a_bounce_leaves_the_source_alone() {
    let world = chalk_spheres();
    let empty: Scene = HittableList::new();
    let mut source = Dice(5);
    for r in rays() {
        ray_color(&r, &world, 0, &mut source);
        assert_eq!(source, Dice(5));
        ray_color(&r, &empty, 50, &mut source);
        assert_eq!(source, Dice(5));
    }
    let up = Ray::new(v3(0.0, 0.0, 0.0), v3(0.0, 1.0, 0.0));
    ray_color(&up, &world, 50, &mut source);
    assert_eq!(source, Dice(5));
    let at_sphere = Ray::new(v3(0.0, 0.0, 0.0), v3(0.0, 0.0, -1.0));
    let path = ray_color(&at_sphere, &world, 50, &mut source);
    assert!(path.bounces.len() >= 1);
    assert_ne!(source, Dice(5));
}
