use raytracer::plane::{Cube, Interval, Plane, PlaneCoordinates, PlanePoint, Rectangle, Xy, Xz, Yz};
use raytracer::scalar::Scalar;
use raytracer::vec3::{Coordinate, Position, Vec3f};

fn s(x: f64) -> Scalar {
    Scalar::from_bits(x.to_bits())
}

fn f(x: Scalar) -> f64 {
    f64::from_bits(x.to_bits())
}

fn v(a: [f64; 3]) -> Vec3f<Position> {
    Vec3f::new(s(a[0]), s(a[1]), s(a[2]))
}

fn a3(p: Vec3f<Position>) -> [f64; 3] {
    [f(p.x()), f(p.y()), f(p.z())]
}

fn span(i: Interval) -> (f64, f64) {
    (f(i.start), f(i.end))
}

fn interval(a: f64, b: f64) -> Interval {
    Interval { start: s(a), end: s(b) }
}

fn sides<P: Plane>(r: &Rectangle<P>) -> ((f64, f64), (f64, f64), f64, usize) {
    (span(r.p0), span(r.p1), f(r.k), r.material)
}

#[test]
fn planes_name_their_axes() {
    assert_eq!(Xy::axes(), PlaneCoordinates { axis0: Coordinate::X, axis1: Coordinate::Y, k: Coordinate::Z });
    assert_eq!(Xz::axes(), PlaneCoordinates { axis0: Coordinate::X, axis1: Coordinate::Z, k: Coordinate::Y });
    assert_eq!(Yz::axes(), PlaneCoordinates { axis0: Coordinate::Y, axis1: Coordinate::Z, k: Coordinate::X });
}

#[test]
fn points_pick_the_extents_of_each_plane() {
    let (p0, p1) = (v([1.0, 2.0, 3.0]), v([4.0, 5.0, 6.0]));
    let (a, b, k0, k1) = Xy::points(p0, p1);
    assert_eq!((span(a), span(b), f(k0), f(k1)), ((1.0, 4.0), (2.0, 5.0), 3.0, 6.0));
    let (a, b, k0, k1) = Xz::points(p0, p1);
    assert_eq!((span(a), span(b), f(k0), f(k1)), ((1.0, 4.0), (3.0, 6.0), 2.0, 5.0));
    let (a, b, k0, k1) = Yz::points(p0, p1);
    assert_eq!((span(a), span(b), f(k0), f(k1)), ((2.0, 5.0), (3.0, 6.0), 1.0, 4.0));
}

#[test]
fn interval_is_half_open() {
    let i = interval(1.0, 2.0);
    assert!(i.contains(s(1.0)));
    assert!(i.contains(s(1.5)));
    assert!(!i.contains(s(2.0)));
    assert!(!i.contains(s(0.999)));
    assert!(!i.contains(s(f64::NAN)));
}

#[test]
fn rectangles_are_the_two_faces_at_the_offsets() {
    let (near, far) = Xz::rectangles(v([1.0, 2.0, 3.0]), v([4.0, 5.0, 6.0]), 7);
    assert_eq!(sides(&near), ((1.0, 4.0), (3.0, 6.0), 2.0, 7));
    assert_eq!(sides(&far), ((1.0, 4.0), (3.0, 6.0), 5.0, 7));
    let one = Yz::rectangle(2, interval(0.0, 555.0), interval(0.0, 555.0), s(555.0));
    assert_eq!(sides(&one), ((0.0, 555.0), (0.0, 555.0), 555.0, 2));
}

#[test]
fn cube_has_six_faces() {
    let cube = Cube::new(v([0.0, 0.0, 0.0]), v([165.0, 330.0, 165.0]), 1);
    assert_eq!(sides(&cube.xy.0), ((0.0, 165.0), (0.0, 330.0), 0.0, 1));
    assert_eq!(sides(&cube.xy.1), ((0.0, 165.0), (0.0, 330.0), 165.0, 1));
    assert_eq!(sides(&cube.xz.0), ((0.0, 165.0), (0.0, 165.0), 0.0, 1));
    assert_eq!(sides(&cube.xz.1), ((0.0, 165.0), (0.0, 165.0), 330.0, 1));
    assert_eq!(sides(&cube.yz.0), ((0.0, 330.0), (0.0, 165.0), 0.0, 1));
    assert_eq!(sides(&cube.yz.1), ((0.0, 330.0), (0.0, 165.0), 165.0, 1));
    let b = cube.bounding_box().unwrap();
    assert_eq!(a3(b.min), [0.0, 0.0, 0.0]);
    assert_eq!(a3(b.max), [165.0, 330.0, 165.0]);
}

/// The arithmetic of a ray from `o` along `d` on a rectangle in the xy
/// plane.
fn meet(rect: &Rectangle<Xy>, o: [f64; 3], d: [f64; 3]) -> (Scalar, impl Fn(Scalar) -> PlanePoint) {
    let t = (f(rect.k) - o[2]) / d[2];
    let (x0, x1) = span(rect.p0);
    let (y0, y1) = span(rect.p1);
    (s(t), move |t: Scalar| {
        let t = f(t);
        let (px, py) = (o[0] + t * d[0], o[1] + t * d[1]);
        PlanePoint {
            p0: s(px),
            p1: s(py),
            u: s((px - x0) / (x1 - x0)),
            v: s((py - y0) / (y1 - y0)),
            p: v([px, py, o[2] + t * d[2]]),
            facing: s(d[2]),
        }
    })
}

#[test]
fn rectangle_is_hit_inside_its_extents() {
    let rect: Rectangle<Xy> = Rectangle::new(5, interval(3.0, 5.0), interval(1.0, 3.0), s(-2.0));
    let (t, at) = meet(&rect, [4.0, 2.0, 0.0], [0.0, 0.0, -1.0]);
    let record = rect.hit(t, s(0.001), s(f64::MAX), at).unwrap();
    assert_eq!(f(record.t), 2.0);
    assert_eq!(a3(record.p), [4.0, 2.0, -2.0]);
    assert_eq!((f(record.u), f(record.v)), (0.5, 0.5));
    assert_eq!(a3(record.normal), [0.0, 0.0, 1.0]);
    assert!(record.front_face);
    assert_eq!(record.material, 5);
}

#[test]
fn rectangle_seen_from_behind_turns_its_normal() {
    let rect: Rectangle<Xy> = Rectangle::new(5, interval(3.0, 5.0), interval(1.0, 3.0), s(-2.0));
    let (t, at) = meet(&rect, [3.5, 1.5, -4.0], [0.0, 0.0, 1.0]);
    let record = rect.hit(t, s(0.001), s(f64::MAX), at).unwrap();
    assert_eq!(f(record.t), 2.0);
    assert!(!record.front_face);
    assert_eq!(a3(record.normal), [-0.0, -0.0, -1.0]);
    assert_eq!((f(record.u), f(record.v)), (0.25, 0.25));
}

#[test]
fn rectangle_is_missed_beside_its_extents_and_outside_the_window() {
    let rect: Rectangle<Xy> = Rectangle::new(5, interval(3.0, 5.0), interval(1.0, 3.0), s(-2.0));
    let (t, at) = meet(&rect, [5.0, 2.0, 0.0], [0.0, 0.0, -1.0]);
    assert!(rect.hit(t, s(0.001), s(f64::MAX), at).is_none());
    let (t, at) = meet(&rect, [3.0, 1.0, 0.0], [0.0, 0.0, -1.0]);
    assert!(rect.hit(t, s(0.001), s(f64::MAX), at).is_some());
    let (t, at) = meet(&rect, [4.0, 0.5, 0.0], [0.0, 0.0, -1.0]);
    assert!(rect.hit(t, s(0.001), s(f64::MAX), at).is_none());
    let (t, at) = meet(&rect, [4.0, 2.0, 0.0], [0.0, 0.0, -1.0]);
    assert!(rect.hit(t, s(0.001), s(1.9), at).is_none());
    let (t, at) = meet(&rect, [4.0, 2.0, 0.0], [0.0, 0.0, -1.0]);
    assert!(rect.hit(t, s(2.1), s(f64::MAX), at).is_none());
    let (t, at) = meet(&rect, [4.0, 2.0, 0.0], [0.0, 0.0, -1.0]);
    assert!(rect.hit(t, s(2.0), s(2.0), at).is_some());
    let (t, at) = meet(&rect, [4.0, 2.0, 0.0], [0.0, 0.0, 1.0]);
    assert!(rect.hit(t, s(0.001), s(f64::MAX), at).is_none());
}

#[test]
fn rectangle_box_has_a_thickness() {
    let rect: Rectangle<Xz> = Rectangle::new(5, interval(213.0, 343.0), interval(227.0, 332.0), s(554.0));
    let b = rect.bounding_box(s(554.0 - 0.0001), s(554.0 + 0.0001)).unwrap();
    assert_eq!(a3(b.min), [213.0, 554.0 - 0.0001, 227.0]);
    assert_eq!(a3(b.max), [343.0, 554.0 + 0.0001, 332.0]);
    let rect: Rectangle<Yz> = Rectangle::new(5, interval(1.0, 2.0), interval(3.0, 4.0), s(0.0));
    let b = rect.bounding_box(s(-0.0001), s(0.0001)).unwrap();
    assert_eq!(a3(b.min), [-0.0001, 1.0, 3.0]);
    assert_eq!(a3(b.max), [0.0001, 2.0, 4.0]);
}

/// The arithmetic of a ray on the six faces of a box, and the library's scan.
fn cube_hit(cube: &Cube, o: [f64; 3], d: [f64; 3], lo: f64, hi: f64) -> Option<raytracer::hittable::HitRecord> {
    let faces: [(usize, usize, usize, Interval, Interval, f64); 6] = [
        (0, 1, 2, cube.xy.0.p0, cube.xy.0.p1, f(cube.xy.0.k)),
        (0, 1, 2, cube.xy.1.p0, cube.xy.1.p1, f(cube.xy.1.k)),
        (0, 2, 1, cube.xz.0.p0, cube.xz.0.p1, f(cube.xz.0.k)),
        (0, 2, 1, cube.xz.1.p0, cube.xz.1.p1, f(cube.xz.1.k)),
        (1, 2, 0, cube.yz.0.p0, cube.yz.0.p1, f(cube.yz.0.k)),
        (1, 2, 0, cube.yz.1.p0, cube.yz.1.p1, f(cube.yz.1.k)),
    ];
    let mut crossings = [s(0.0); 6];
    for (n, face) in faces.iter().enumerate() {
        crossings[n] = s((face.5 - o[face.2]) / d[face.2]);
    }
    cube.hit(&crossings, s(lo), s(hi), move |number: usize, t: Scalar| {
        let (a0, a1, k, p0, p1, _) = faces[number];
        let t = f(t);
        let (c0, c1) = (o[a0] + t * d[a0], o[a1] + t * d[a1]);
        PlanePoint {
            p0: s(c0),
            p1: s(c1),
            u: s((c0 - f(p0.start)) / (f(p0.end) - f(p0.start))),
            v: s((c1 - f(p1.start)) / (f(p1.end) - f(p1.start))),
            p: v([o[0] + t * d[0], o[1] + t * d[1], o[2] + t * d[2]]),
            facing: s(d[k]),
        }
    })
}

#[test]
fn cube_is_hit_on_its_nearest_face() {
    let cube = Cube::new(v([0.0, 0.0, 0.0]), v([2.0, 4.0, 6.0]), 3);
    let front = cube_hit(&cube, [1.0, 1.0, 10.0], [0.0, 0.0, -1.0], 0.001, f64::MAX).unwrap();
    assert_eq!(f(front.t), 4.0);
    assert_eq!(a3(front.p), [1.0, 1.0, 6.0]);
    assert_eq!(a3(front.normal), [0.0, 0.0, 1.0]);
    assert_eq!((f(front.u), f(front.v)), (0.5, 0.25));
    assert_eq!(front.material, 3);
    let side = cube_hit(&cube, [-3.0, 1.0, 3.0], [1.0, 0.0, 0.0], 0.001, f64::MAX).unwrap();
    assert_eq!(f(side.t), 3.0);
    assert_eq!(a3(side.p), [0.0, 1.0, 3.0]);
    assert_eq!(a3(side.normal), [-1.0, -0.0, -0.0]);
    let top = cube_hit(&cube, [1.0, 9.0, 3.0], [0.0, -1.0, 0.0], 0.001, f64::MAX).unwrap();
    assert_eq!(f(top.t), 5.0);
    assert_eq!(a3(top.normal), [0.0, 1.0, 0.0]);
}

#[test]
fn cube_window_picks_the_far_face() {
    let cube = Cube::new(v([0.0, 0.0, 0.0]), v([2.0, 4.0, 6.0]), 3);
    let back = cube_hit(&cube, [1.0, 1.0, 10.0], [0.0, 0.0, -1.0], 4.5, f64::MAX).unwrap();
    assert_eq!(f(back.t), 10.0);
    assert_eq!(a3(back.p), [1.0, 1.0, 0.0]);
    assert!(cube_hit(&cube, [1.0, 1.0, 10.0], [0.0, 0.0, -1.0], 0.001, 3.5).is_none());
    assert!(cube_hit(&cube, [1.0, 1.0, 10.0], [0.0, 0.0, -1.0], 4.5, 9.5).is_none());
    assert!(cube_hit(&cube, [1.0, 1.0, 10.0], [0.0, 0.0, -1.0], 10.5, f64::MAX).is_none());
}

#[test]
fn ray_beside_the_cube_misses() {
    let cube = Cube::new(v([0.0, 0.0, 0.0]), v([2.0, 4.0, 6.0]), 3);
    assert!(cube_hit(&cube, [3.0, 1.0, 10.0], [0.0, 0.0, -1.0], 0.001, f64::MAX).is_none());
    assert!(cube_hit(&cube, [1.0, 1.0, 10.0], [0.0, 0.0, 1.0], 0.001, f64::MAX).is_none());
    let inside = cube_hit(&cube, [1.0, 1.0, 3.0], [0.0, 0.0, 1.0], 0.001, f64::MAX).unwrap();
    assert_eq!(f(inside.t), 3.0);
    assert!(!inside.front_face);
}

#[test]
fn cube_scan_agrees_with_a_scan_of_its_faces() {
    let cube = Cube::new(v([-1.0, -2.0, -3.0]), v([1.0, 2.0, 3.0]), 0);
    for i in -6..=6 {
        for j in -6..=6 {
            let (o, d) = ([0.3 * i as f64, 0.5 * j as f64, 9.0], [0.11, -0.07 * j as f64, -1.0]);
            let hit = cube_hit(&cube, o, d, 0.001, f64::MAX);
            let mut best: Option<f64> = None;
            for (axis, lo, hi) in [(0, -1.0, 1.0), (1, -2.0, 2.0), (2, -3.0, 3.0)] {
                for k in [lo, hi] {
                    let t = (k - o[axis]) / d[axis];
                    let p = [o[0] + t * d[0], o[1] + t * d[1], o[2] + t * d[2]];
                    let mut on = t >= 0.001;
                    for (other, omin, omax) in [(0, -1.0, 1.0), (1, -2.0, 2.0), (2, -3.0, 3.0)] {
                        if other != axis && !(omin <= p[other] && p[other] < omax) {
                            on = false;
                        }
                    }
                    if on && best.map_or(true, |b| t < b) {
                        best = Some(t);
                    }
                }
            }
            assert_eq!(hit.map(|r| f(r.t)), best);
        }
    }
}
