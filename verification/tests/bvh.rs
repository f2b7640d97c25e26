use raytracer::bound::{Bound, Slab};
use raytracer::bvh::{BvhNode, BvhTree};
use raytracer::hittable::{HitRecord, Hittable, List};
use raytracer::ray::Ray;
use raytracer::scalar::Scalar;
use raytracer::vec3::Vec3f;
use std::cmp::Ordering;

fn s(x: f64) -> Scalar {
    Scalar::from_bits(x.to_bits())
}

fn f(x: Scalar) -> f64 {
    f64::from_bits(x.to_bits())
}

/// A square of side 1 in the plane `z = depth`, centred on `(x, y)`.
struct Tile {
    x: f64,
    y: f64,
    depth: f64,
    material: usize,
}

impl Hittable for Tile {
    fn hit(&self, ray: Ray, t_min: Scalar, t_max: Scalar) -> Option<HitRecord> {
        let t = (self.depth - f(ray.origin().z())) / f(ray.direction().z());
        if t < f(t_min) || t > f(t_max) {
            return None;
        }
        let px = f(ray.origin().x()) + t * f(ray.direction().x());
        let py = f(ray.origin().y()) + t * f(ray.direction().y());
        if (px - self.x).abs() > 0.5 || (py - self.y).abs() > 0.5 {
            return None;
        }
        Some(HitRecord {
            t: s(t),
            p: Vec3f::new(s(px), s(py), s(self.depth)),
            normal: Vec3f::new(s(0.0), s(0.0), s(1.0)),
            material: self.material,
            u: s(0.0),
            v: s(0.0),
            front_face: true,
        })
    }

    fn bounding_box(&self, _initial_time: Scalar, _final_time: Scalar) -> Option<Bound> {
        Some(Bound {
            min: Vec3f::new(s(self.x - 0.5), s(self.y - 0.5), s(self.depth - 0.0001)),
            max: Vec3f::new(s(self.x + 0.5), s(self.y + 0.5), s(self.depth + 0.0001)),
        })
    }
}

fn slab_test(b: Bound, ray: Ray, t_min: Scalar, t_max: Scalar) -> bool {
    let axis = |lo: Scalar, hi: Scalar, o: Scalar, d: Scalar| {
        let inv = 1.0 / f(d);
        Slab {
            inverse_direction: s(inv),
            t0: s((f(lo) - f(o)) * inv),
            t1: s((f(hi) - f(o)) * inv),
        }
    };
    let (o, d) = (ray.origin(), ray.direction());
    let slabs = [
        axis(b.min.x(), b.max.x(), o.x(), d.x()),
        axis(b.min.y(), b.max.y(), o.y(), d.y()),
        axis(b.min.z(), b.max.z(), o.z(), d.z()),
    ];
    Bound::hit(&slabs, t_min, t_max)
}

fn tiles() -> Vec<Tile> {
    let mut v = Vec::new();
    let mut m = 0;
    for i in 0..5 {
        for j in 0..5 {
            for k in 0..3 {
                v.push(Tile {
                    x: i as f64 * 0.75,
                    y: j as f64 * 0.75,
                    depth: -1.0 - k as f64 - 0.01 * (i + j) as f64,
                    material: m,
                });
                m += 1;
            }
        }
    }
    v
}

fn ray_to(x: f64, y: f64) -> Ray {
    Ray {
        a: Vec3f::new(s(1.5), s(1.5), s(4.0)),
        b: Vec3f::new(s(x - 1.5), s(y - 1.5), s(-5.0)),
        time: s(0.0),
    }
}

fn leaves(node: &BvhNode, out: &mut Vec<usize>) {
    match node {
        BvhNode::Leaf { object } => out.push(*object),
        BvhNode::Branch { left, right, .. } => {
            leaves(left, out);
            leaves(right, out);
        }
    }
}

#[test]
fn tree_and_list_find_the_same_hit() {
    let mut list = List::new();
    for t in tiles() {
        list.push(t);
    }
    let tree = BvhTree::from_time(List { list: tiles() }, s(0.0), s(1.0));
    let mut hits = 0;
    for i in 0..40 {
        for j in 0..40 {
            let ray = ray_to(-1.0 + i as f64 * 0.13, -1.0 + j as f64 * 0.13);
            for (lo, hi) in [(0.001, f64::MAX), (1.1, 1.3), (0.001, 1.05)] {
                let a = list.hit(ray, s(lo), s(hi));
                let b = tree.hit(ray, s(lo), s(hi), slab_test);
                assert_eq!(a.is_some(), b.is_some());
                if let (Some(a), Some(b)) = (a, b) {
                    assert_eq!(f(a.t), f(b.t));
                    assert_eq!(a.material, b.material);
                    hits += 1;
                }
            }
        }
    }
    assert!(hits > 100);
}

#[test]
fn tree_holds_every_object_of_the_span() {
    let tree = BvhTree::new(tiles(), 3, 40, s(0.0), s(1.0));
    let mut found = Vec::new();
    leaves(&tree.root, &mut found);
    found.sort();
    found.dedup();
    let expected: Vec<usize> = (3..40).collect();
    assert_eq!(found, expected);
}

#[test]
fn one_object_stands_on_both_sides() {
    let tree = BvhTree::new(tiles(), 7, 8, s(0.0), s(1.0));
    match &tree.root {
        BvhNode::Branch { left, right, bound } => {
            assert!(matches!(**left, BvhNode::Leaf { object: 7 }));
            assert!(matches!(**right, BvhNode::Leaf { object: 7 }));
            let own = tiles()[7].bounding_box(s(0.0), s(1.0)).unwrap();
            assert_eq!(f(bound.min.x()), f(own.min.x()));
            assert_eq!(f(bound.max.z()), f(own.max.z()));
        }
        BvhNode::Leaf { .. } => panic!("the root is a branch"),
    }
}

#[test]
fn root_box_surrounds_all_objects() {
    let tree = BvhTree::from_time(List { list: tiles() }, s(0.0), s(1.0));
    let b = tree.bounding_box(s(0.0), s(1.0)).unwrap();
    assert_eq!(f(b.min.x()), -0.5);
    assert_eq!(f(b.max.x()), 3.5);
    assert_eq!(f(b.min.z()), -3.08 - 0.0001);
    assert_eq!(f(b.max.z()), -1.0 + 0.0001);
}

#[test]
fn comparators_order_by_the_box_minimum() {
    let a = Tile { x: 0.0, y: 5.0, depth: -1.0, material: 0 };
    let b = Tile { x: 1.0, y: 2.0, depth: -1.0, material: 1 };
    assert_eq!(BvhTree::x_comparator(&a, &b), Ordering::Less);
    assert_eq!(BvhTree::x_comparator(&b, &a), Ordering::Greater);
    assert_eq!(BvhTree::y_comparator(&a, &b), Ordering::Greater);
    assert_eq!(BvhTree::z_comparator(&a, &b), Ordering::Equal);
    assert_eq!(BvhTree::comparator(&a, &b, 1), Ordering::Greater);
    let nan = Tile { x: f64::NAN, y: 2.0, depth: -1.0, material: 1 };
    assert_eq!(BvhTree::x_comparator(&a, &nan), Ordering::Equal);
}

#[test]
fn two_objects_stand_in_order_along_some_axis() {
    let pair = || {
        vec![
            Tile { x: 3.0, y: 3.0, depth: -1.0, material: 0 },
            Tile { x: 1.0, y: 1.0, depth: -2.0, material: 1 },
        ]
    };
    for _ in 0..20 {
        let tree = BvhTree::new(pair(), 0, 2, s(0.0), s(1.0));
        match &tree.root {
            BvhNode::Branch { left, right, .. } => {
                assert!(matches!(**left, BvhNode::Leaf { object: 1 }));
                assert!(matches!(**right, BvhNode::Leaf { object: 0 }));
            }
            BvhNode::Leaf { .. } => panic!("the root is a branch"),
        }
    }
}

fn sorted_along_some_axis(node: &BvhNode, objects: &[Tile]) -> bool {
    match node {
        BvhNode::Leaf { .. } => true,
        BvhNode::Branch { left, right, .. } => {
            let (mut l, mut r) = (Vec::new(), Vec::new());
            leaves(left, &mut l);
            leaves(right, &mut r);
            let key = |i: usize, axis: usize| {
                let b = objects[i].bounding_box(s(0.0), s(0.0)).unwrap();
                [f(b.min.x()), f(b.min.y()), f(b.min.z())][axis]
            };
            let split = (0..3).any(|axis| l.iter().all(|&i| r.iter().all(|&j| key(i, axis) <= key(j, axis))));
            split && sorted_along_some_axis(left, objects) && sorted_along_some_axis(right, objects)
        }
    }
}

#[test]
fn every_branch_is_split_by_key_and_boxed() {
    let tree = BvhTree::from_time(List { list: tiles() }, s(0.0), s(1.0));
    assert!(sorted_along_some_axis(&tree.root, &tree.objects));
    boxed(&tree.root, &tree.objects);
}

fn boxed(node: &BvhNode, objects: &[Tile]) -> Bound {
    match node {
        BvhNode::Leaf { object } => objects[*object].bounding_box(s(0.0), s(1.0)).unwrap(),
        BvhNode::Branch { left, right, bound } => {
            let both = boxed(left, objects).surrounding(boxed(right, objects));
            assert_eq!(f(both.min.x()), f(bound.min.x()));
            assert_eq!(f(both.min.y()), f(bound.min.y()));
            assert_eq!(f(both.min.z()), f(bound.min.z()));
            assert_eq!(f(both.max.x()), f(bound.max.x()));
            assert_eq!(f(both.max.y()), f(bound.max.y()));
            assert_eq!(f(both.max.z()), f(bound.max.z()));
            *bound
        }
    }
}

fn halved(node: &BvhNode, n: usize) -> bool {
    match node {
        BvhNode::Leaf { .. } => false,
        BvhNode::Branch { left, right, .. } => {
            if n <= 2 {
                match (&**left, &**right) {
                    (BvhNode::Leaf { object: a }, BvhNode::Leaf { object: b }) => n == 2 || a == b,
                    _ => false,
                }
            } else {
                halved(left, n / 2) && halved(right, n - n / 2)
            }
        }
    }
}

#[test]
fn every_branch_halves_its_objects() {
    for n in 1..=40 {
        let tree = BvhTree::new(tiles(), 0, n, s(0.0), s(1.0));
        assert!(halved(&tree.root, n), "{n} objects");
    }
    let tree = BvhTree::from_time(List { list: tiles() }, s(0.0), s(1.0));
    assert!(halved(&tree.root, 75));
}

/// A tile that may answer no box.
struct Loose {
    tile: Tile,
    boxed: bool,
}

impl Hittable for Loose {
    fn hit(&self, ray: Ray, t_min: Scalar, t_max: Scalar) -> Option<HitRecord> {
        self.tile.hit(ray, t_min, t_max)
    }

    fn bounding_box(&self, initial_time: Scalar, final_time: Scalar) -> Option<Bound> {
        if self.boxed {
            self.tile.bounding_box(initial_time, final_time)
        } else {
            None
        }
    }
}

fn loose() -> Vec<Loose> {
    tiles()
        .into_iter()
        .take(7)
        .enumerate()
        .map(|(n, tile)| Loose { tile, boxed: n != 2 && n != 5 })
        .collect()
}

#[test]
fn objects_without_a_box_are_told_of() {
    let tree = BvhTree::new(loose(), 0, 7, s(0.0), s(1.0));
    assert_eq!(tree.unbounded, vec![2, 5]);
    let tree = BvhTree::from_time(List { list: tiles() }, s(0.0), s(1.0));
    assert!(tree.unbounded.is_empty());
    let (boxes, missing) = raytracer::bvh::object_boxes(&loose(), s(0.0), s(1.0));
    assert_eq!(missing, vec![2, 5]);
    assert_eq!(boxes.len(), 7);
    assert_eq!((f(boxes[2].min.x()), f(boxes[2].max.z())), (0.0, 0.0));
    assert_eq!(f(boxes[1].min.x()), -0.5);
}

fn shape(node: &BvhNode) -> String {
    match node {
        BvhNode::Leaf { object } => format!("{object}"),
        BvhNode::Branch { left, right, .. } => format!("({} {})", shape(left), shape(right)),
    }
}

#[test]
fn given_axes_give_the_same_tree() {
    let axes = vec![0, 1, 2, 2, 1, 0, 1];
    let first = BvhTree::with_axes(tiles(), 0, 75, s(0.0), s(1.0), &axes);
    let second = BvhTree::with_axes(tiles(), 0, 75, s(0.0), s(1.0), &axes);
    assert_eq!(shape(&first.root), shape(&second.root));
    assert!(halved(&first.root, 75));
    assert!(sorted_along_some_axis(&first.root, &first.objects));
    boxed(&first.root, &first.objects);
    let other = BvhTree::with_axes(tiles(), 0, 75, s(0.0), s(1.0), &vec![2]);
    assert_ne!(shape(&first.root), shape(&other.root));
}

#[test]
fn given_axes_decide_the_split() {
    let objects = || {
        vec![
            Tile { x: 3.0, y: 1.0, depth: -2.0, material: 0 },
            Tile { x: 1.0, y: 2.0, depth: -3.0, material: 1 },
            Tile { x: 2.0, y: 3.0, depth: -1.0, material: 2 },
        ]
    };
    let along = |axes: Vec<usize>| shape(&BvhTree::with_axes(objects(), 0, 3, s(0.0), s(1.0), &axes).root);
    assert_eq!(along(vec![0]), "((1 1) (2 0))");
    assert_eq!(along(vec![1]), "((0 0) (1 2))");
    assert_eq!(along(vec![2]), "((1 1) (0 2))");
    assert_eq!(along(vec![]), "((1 1) (2 0))");
    assert_eq!(along(vec![3]), "((1 1) (2 0))");
    assert_eq!(along(vec![0, 0, 2]), "((1 1) (0 2))");
    assert_eq!(along(vec![2, 0, 0]), "((1 1) (2 0))");
    assert_eq!(along(vec![5, 7]), "((1 1) (0 2))");
    let two = |axes: Vec<usize>| shape(&BvhTree::with_axes(objects(), 0, 2, s(0.0), s(1.0), &axes).root);
    assert_eq!(two(vec![0]), "(1 0)");
    assert_eq!(two(vec![1]), "(0 1)");
}

#[test]
fn equal_keys_keep_their_order_until_a_pair_is_placed() {
    let objects: Vec<Tile> = (0..5).map(|n| Tile { x: 1.0, y: n as f64, depth: -1.0, material: n }).collect();
    let tree = BvhTree::with_axes(objects, 0, 5, s(0.0), s(1.0), &vec![0]);
    assert_eq!(shape(&tree.root), "((1 0) ((2 2) (4 3)))");
    let objects = vec![Tile { x: 1.0, y: 0.0, depth: -1.0, material: 0 }, Tile { x: 1.0, y: 1.0, depth: -1.0, material: 1 }];
    let tree = BvhTree::with_axes(objects, 0, 2, s(0.0), s(1.0), &vec![0]);
    assert_eq!(shape(&tree.root), "(1 0)");
}

#[test]
fn tree_from_a_list_holds_all_its_objects() {
    let tree = BvhTree::from(List { list: tiles() });
    let mut found = Vec::new();
    leaves(&tree.root, &mut found);
    found.sort();
    found.dedup();
    assert_eq!(found, (0..75).collect::<Vec<usize>>());
    assert!(halved(&tree.root, 75));
}
