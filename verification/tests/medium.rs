use raytracer::bound::Bound;
use raytracer::hittable::{HitRecord, Hittable};
use raytracer::medium::{ConstantMedium, FreePath};
use raytracer::ray::Ray;
use raytracer::scalar::Scalar;
use raytracer::vec3::{Position, Vec3f};

fn s(x: f64) -> Scalar {
    Scalar::from_bits(x.to_bits())
}

fn f(x: Scalar) -> f64 {
    f64::from_bits(x.to_bits())
}

fn v(a: [f64; 3]) -> Vec3f<Position> {
    Vec3f::new(s(a[0]), s(a[1]), s(a[2]))
}

fn a3(p: Vec3f<Position>) -> [f64; 3] {
    [f(p.x()), f(p.y()), f(p.z())]
}

/// The unit box round the origin's first octant, as a boundary.
struct UnitBox;

impl Hittable for UnitBox {
    fn hit(&self, ray: Ray, t_min: Scalar, t_max: Scalar) -> Option<HitRecord> {
        let (o, d) = (a3(ray.origin()), a3(ray.direction()));
        let mut best: Option<f64> = None;
        for axis in 0..3 {
            for k in [0.0, 1.0] {
                let t = (k - o[axis]) / d[axis];
                if t.is_nan() || t < f(t_min) || t > f(t_max) {
                    continue;
                }
                let p = [o[0] + t * d[0], o[1] + t * d[1], o[2] + t * d[2]];
                let inside = (0..3).all(|a| a == axis || (0.0..=1.0).contains(&p[a]));
                if inside && best.map_or(true, |b| t < b) {
                    best = Some(t);
                }
            }
        }
        best.map(|t| HitRecord {
            t: s(t),
            p: v([o[0] + t * d[0], o[1] + t * d[1], o[2] + t * d[2]]),
            normal: v([0.0, 0.0, 1.0]),
            material: 0,
            u: s(0.0),
            v: s(0.0),
            front_face: true,
        })
    }

    fn bounding_box(&self, _initial_time: Scalar, _final_time: Scalar) -> Option<Bound> {
        Some(Bound { min: v([0.0, 0.0, 0.0]), max: v([1.0, 1.0, 1.0]) })
    }
}

struct Lcg(u64);

impl Lcg {
    fn next(&mut self) -> f64 {
        self.0 = self.0.wrapping_mul(6364136223846793005).wrapping_add(1442695040888963407);
        (self.0 >> 11) as f64 / (1u64 << 53) as f64
    }
}

fn probe(medium: &ConstantMedium<UnitBox>, ray: Ray, lo: f64, hi: f64, draw: f64) -> Option<HitRecord> {
    let (o, d) = (a3(ray.origin()), a3(ray.direction()));
    let length = (d[0] * d[0] + d[1] * d[1] + d[2] * d[2]).sqrt();
    let density = f(medium.neg_inv_density);
    medium.hit(
        ray,
        s(lo),
        s(hi),
        |t: Scalar| s(f(t) + 0.0001),
        move |a: Scalar, b: Scalar| {
            let hit_distance = density * draw.ln();
            let t = f(a) + hit_distance / length;
            FreePath {
                distance_inside_boundary: s((f(b) - f(a)) * length),
                hit_distance: s(hit_distance),
                t: s(t),
                p: v([o[0] + t * d[0], o[1] + t * d[1], o[2] + t * d[2]]),
            }
        },
    )
}

fn through(x: f64, y: f64) -> Ray {
    Ray { a: v([x, y, 3.0]), b: v([0.0, 0.0, -1.0]), time: s(0.0) }
}

#[test]
fn medium_of_density_zero_is_never_hit() {
    let medium = ConstantMedium::new(UnitBox, s(-1.0 / 0.0), 9);
    assert_eq!(f(medium.neg_inv_density), f64::NEG_INFINITY);
    let mut rng = Lcg(7);
    let mut hits = 0;
    for _ in 0..2000 {
        let ray = through(rng.next(), rng.next());
        let draw = rng.next();
        if probe(&medium, ray, 0.001, f64::MAX, draw).is_some() {
            hits += 1;
        }
    }
    assert_eq!(hits, 0);
}

#[test]
fn dense_medium_scatters_inside_the_boundary() {
    let medium = ConstantMedium::new(UnitBox, s(-1.0 / 50.0), 9);
    let mut rng = Lcg(11);
    let mut hits = 0;
    for _ in 0..2000 {
        let ray = through(rng.next(), rng.next());
        let draw = rng.next();
        if let Some(record) = probe(&medium, ray, 0.001, f64::MAX, draw) {
            hits += 1;
            assert!(f(record.t) >= 2.0 && f(record.t) <= 3.0);
            assert_eq!(record.material, 9);
            assert!(record.front_face);
            assert_eq!(a3(record.normal), [1.0, 0.0, 0.0]);
            assert_eq!((f(record.u), f(record.v)), (0.0, 0.0));
            let p = a3(record.p);
            assert!((-1e-9..=1.0 + 1e-9).contains(&p[2]));
        }
    }
    assert!(hits > 1900);
}

#[test]
fn free_path_decides_the_hit() {
    let medium = ConstantMedium::new(UnitBox, s(-1.0), 9);
    let ray = through(0.5, 0.5);
    let near = probe(&medium, ray, 0.001, f64::MAX, (-0.25f64).exp()).unwrap();
    assert!((f(near.t) - 2.25).abs() < 1e-12);
    assert!(probe(&medium, ray, 0.001, f64::MAX, (-1.5f64).exp()).is_none());
    let edge = probe(&medium, ray, 0.001, f64::MAX, (-1.0f64).exp());
    assert!(edge.is_some());
}

#[test]
fn window_clips_the_stretch_inside() {
    let medium = ConstantMedium::new(UnitBox, s(-1.0), 9);
    let ray = through(0.5, 0.5);
    assert!(probe(&medium, ray, 0.001, 1.5, 0.9).is_none());
    assert!(probe(&medium, ray, 3.5, f64::MAX, 0.9).is_none());
    let late = probe(&medium, ray, 2.5, f64::MAX, (-0.25f64).exp()).unwrap();
    assert!((f(late.t) - 2.75).abs() < 1e-12);
    assert!(probe(&medium, ray, 0.001, 2.2, (-0.25f64).exp()).is_none());
    let early = probe(&medium, ray, 0.001, 2.2, (-0.125f64).exp()).unwrap();
    assert!((f(early.t) - 2.125).abs() < 1e-12);
}

#[test]
fn ray_that_misses_the_boundary_misses_the_medium() {
    let medium = ConstantMedium::new(UnitBox, s(-1.0 / 50.0), 9);
    assert!(probe(&medium, through(1.5, 0.5), 0.001, f64::MAX, 0.5).is_none());
    let grazing = Ray { a: v([0.5, 0.5, 3.0]), b: v([0.0, 0.0, 1.0]), time: s(0.0) };
    assert!(probe(&medium, grazing, 0.001, f64::MAX, 0.999999).is_none());
}

#[test]
fn ray_from_inside_starts_at_its_origin() {
    let medium = ConstantMedium::new(UnitBox, s(-1.0), 9);
    let ray = Ray { a: v([0.5, 0.5, 0.5]), b: v([0.0, 0.0, -1.0]), time: s(0.0) };
    let record = probe(&medium, ray, -10.0, f64::MAX, (-0.25f64).exp()).unwrap();
    assert!((f(record.t) - 0.25).abs() < 1e-12);
    let record = probe(&medium, ray, 0.001, f64::MAX, (-0.25f64).exp()).unwrap();
    assert!((f(record.t) - 0.251).abs() < 1e-12);
}

#[test]
fn medium_has_the_box_of_its_boundary() {
    let medium = ConstantMedium::new(UnitBox, s(-1.0), 9);
    let b = medium.bounding_box(s(0.0), s(1.0)).unwrap();
    assert_eq!(a3(b.max), [1.0, 1.0, 1.0]);
}
