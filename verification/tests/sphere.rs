use raytracer::bound::Bound;
use raytracer::ray::Ray;
use raytracer::scalar::Scalar;
use raytracer::sphere::{MovingSphere, Roots, Sphere, Surface};
use raytracer::vec3::{Position, Vec3f};

fn s(x: f64) -> Scalar {
    Scalar::from_bits(x.to_bits())
}

fn f(x: Scalar) -> f64 {
    f64::from_bits(x.to_bits())
}

fn v(a: [f64; 3]) -> Vec3f<Position> {
    Vec3f::new(s(a[0]), s(a[1]), s(a[2]))
}

fn a3(p: Vec3f<Position>) -> [f64; 3] {
    [f(p.x()), f(p.y()), f(p.z())]
}

fn dot(a: [f64; 3], b: [f64; 3]) -> f64 {
    a[0] * b[0] + a[1] * b[1] + a[2] * b[2]
}

fn sub(a: [f64; 3], b: [f64; 3]) -> [f64; 3] {
    [a[0] - b[0], a[1] - b[1], a[2] - b[2]]
}

fn roots(center: [f64; 3], radius: f64, ray: &Ray) -> Roots {
    let (o, d) = (a3(ray.origin()), a3(ray.direction()));
    let oc = sub(o, center);
    let a = dot(d, d);
    let half_b = dot(oc, d);
    let c = dot(oc, oc) - radius * radius;
    let discriminant = half_b * half_b - a * c;
    let sqrtd = discriminant.sqrt();
    Roots {
        discriminant: s(discriminant),
        near: s((-half_b - sqrtd) / a),
        far: s((-half_b + sqrtd) / a),
    }
}

fn surface(center: [f64; 3], radius: f64, ray: Ray) -> impl Fn(Scalar) -> Surface {
    move |t: Scalar| {
        let (o, d) = (a3(ray.origin()), a3(ray.direction()));
        let t = f(t);
        let p = [o[0] + t * d[0], o[1] + t * d[1], o[2] + t * d[2]];
        let n = [
            (p[0] - center[0]) / radius,
            (p[1] - center[1]) / radius,
            (p[2] - center[2]) / radius,
        ];
        let theta = (-n[1]).acos();
        let phi = (-n[2]).atan2(n[0]) + std::f64::consts::PI;
        Surface {
            p: v(p),
            outward_normal: v(n),
            facing: s(dot(d, n)),
            u: s(phi / (2.0 * std::f64::consts::PI)),
            v: s(theta / std::f64::consts::PI),
        }
    }
}

fn hit_sphere(center: [f64; 3], radius: f64, ray: Ray, lo: f64, hi: f64) -> Option<raytracer::hittable::HitRecord> {
    let sphere = Sphere { center: v(center), radius: s(radius), material: 3 };
    sphere.hit(&roots(center, radius, &ray), s(lo), s(hi), surface(center, radius, ray))
}

fn ray(a: [f64; 3], b: [f64; 3]) -> Ray {
    Ray { a: v(a), b: v(b), time: s(0.5) }
}

#[test]
fn smaller_root_is_preferred() {
    let r = Roots { discriminant: s(1.0), near: s(2.0), far: s(4.0) };
    assert_eq!(r.select(s(0.001), s(f64::MAX)).map(f), Some(2.0));
    assert_eq!(r.select(s(2.0), s(2.0)).map(f), Some(2.0));
}

#[test]
fn larger_root_is_the_fallback() {
    let r = Roots { discriminant: s(1.0), near: s(2.0), far: s(4.0) };
    assert_eq!(r.select(s(2.5), s(f64::MAX)).map(f), Some(4.0));
    assert_eq!(r.select(s(2.5), s(4.0)).map(f), Some(4.0));
}

#[test]
fn roots_outside_the_window_miss() {
    let r = Roots { discriminant: s(1.0), near: s(2.0), far: s(4.0) };
    assert!(r.select(s(2.5), s(3.5)).is_none());
    assert!(r.select(s(4.5), s(9.0)).is_none());
    assert!(r.select(s(0.0), s(1.0)).is_none());
}

#[test]
fn negative_discriminant_misses() {
    let r = Roots { discriminant: s(-1e-12), near: s(2.0), far: s(4.0) };
    assert!(r.select(s(0.0), s(f64::MAX)).is_none());
    let tangent = Roots { discriminant: s(0.0), near: s(2.0), far: s(2.0) };
    assert_eq!(tangent.select(s(0.0), s(f64::MAX)).map(f), Some(2.0));
    let minus_zero = Roots { discriminant: s(-0.0), near: s(2.0), far: s(2.0) };
    assert_eq!(minus_zero.select(s(0.0), s(f64::MAX)).map(f), Some(2.0));
}

#[test]
fn sphere_is_hit_on_its_surface() {
    let center = [0.0, 0.0, -1.0];
    let mut hits = 0;
    for i in -10..=10 {
        for j in -10..=10 {
            let r = ray([0.0, 0.0, 0.0], [i as f64 * 0.07, j as f64 * 0.07, -1.0]);
            let q = roots(center, 0.5, &r);
            let hit = hit_sphere(center, 0.5, r, 0.001, f64::MAX);
            assert_eq!(hit.is_none(), f(q.discriminant) < 0.0);
            if let Some(record) = hit {
                let d = sub(a3(record.p), center);
                assert!((dot(d, d).sqrt() - 0.5).abs() < 1e-6 * 0.5);
                assert!(record.front_face);
                assert_eq!(record.material, 3);
                assert!(f(record.t) >= 0.001);
                assert!((0.0..=1.0).contains(&f(record.u)));
                assert!((0.0..=1.0).contains(&f(record.v)));
                hits += 1;
            }
        }
    }
    assert!(hits > 50);
}

#[test]
fn ray_from_inside_hits_the_back_face() {
    let record = hit_sphere([0.0, 0.0, 0.0], 1.0, ray([0.0, 0.0, 0.0], [0.0, 0.0, -1.0]), 0.001, f64::MAX).unwrap();
    assert_eq!(f(record.t), 1.0);
    assert!(!record.front_face);
    assert_eq!(a3(record.normal), [0.0, 0.0, 1.0]);
}

#[test]
fn negative_radius_turns_the_normal_inward() {
    let center = [0.0, 0.0, -1.0];
    let r = ray([0.0, 0.0, 0.0], [0.0, 0.0, -1.0]);
    let outer = hit_sphere(center, 0.5, r, 0.001, f64::MAX).unwrap();
    let inner = hit_sphere(center, -0.45, r, 0.001, f64::MAX).unwrap();
    assert_eq!(f(outer.t), 0.5);
    assert!((f(inner.t) - 0.55).abs() < 1e-12);
    assert!(outer.front_face);
    assert!(!inner.front_face);
    assert_eq!(a3(outer.normal), [0.0, 0.0, 1.0]);
    let n = a3(inner.normal);
    assert_eq!((n[0], n[1]), (0.0, 0.0));
    assert!((n[2] - 1.0).abs() < 1e-12);
    let d = sub(a3(inner.p), center);
    assert!((dot(d, d).sqrt() - 0.45).abs() < 1e-9);
}

#[test]
fn moving_sphere_has_flat_texture_coordinates() {
    let sphere = MovingSphere {
        center_start: v([0.0, 0.0, -1.0]),
        center_end: v([0.0, 1.0, -1.0]),
        time_start: s(0.0),
        time_end: s(1.0),
        radius: s(0.5),
        material: 8,
    };
    let r = ray([0.0, 0.5, 0.0], [0.0, 0.0, -1.0]);
    let center = [0.0, 0.5, -1.0];
    let record = sphere.hit(&roots(center, 0.5, &r), s(0.001), s(f64::MAX), surface(center, 0.5, r)).unwrap();
    assert_eq!(f(record.t), 0.5);
    assert_eq!(f(record.u), 0.0);
    assert_eq!(f(record.v), 0.0);
    assert_eq!(record.material, 8);
    assert!(sphere.hit(&roots(center, 0.5, &r), s(0.001), s(0.4), surface(center, 0.5, r)).is_none());
}

#[test]
fn moving_sphere_box_surrounds_both_ends() {
    let sphere = MovingSphere {
        center_start: v([0.0, 0.0, 0.0]),
        center_end: v([0.0, 2.0, 0.0]),
        time_start: s(0.0),
        time_end: s(1.0),
        radius: s(1.0),
        material: 0,
    };
    let initial = Bound { min: v([-1.0, -1.0, -1.0]), max: v([1.0, 1.0, 1.0]) };
    let last = Bound { min: v([-1.0, 1.0, -1.0]), max: v([1.0, 3.0, 1.0]) };
    let b = sphere.bounding_box(initial, last).unwrap();
    assert_eq!(a3(b.min), [-1.0, -1.0, -1.0]);
    assert_eq!(a3(b.max), [1.0, 3.0, 1.0]);
}

#[test]
fn surface_record_turns_the_normal_against_the_ray() {
    let surface = Surface {
        p: v([1.0, 2.0, 3.0]),
        outward_normal: v([0.0, 1.0, 0.0]),
        facing: s(0.25),
        u: s(0.1),
        v: s(0.2),
    };
    let record = surface.record(s(7.0), 4);
    assert!(!record.front_face);
    assert_eq!(a3(record.normal), [-0.0, -1.0, -0.0]);
    assert_eq!(f(record.t), 7.0);
    assert_eq!(a3(record.p), [1.0, 2.0, 3.0]);
    assert_eq!((f(record.u), f(record.v)), (0.1, 0.2));
    let front = Surface { facing: s(-0.25), ..surface }.record(s(7.0), 4);
    assert!(front.front_face);
    assert_eq!(a3(front.normal), [0.0, 1.0, 0.0]);
    let grazing = Surface { facing: s(0.0), ..surface }.record(s(7.0), 4);
    assert!(!grazing.front_face);
}
