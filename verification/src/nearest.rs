//! The hierarchy is an acceleration structure only: walked or scanned, the
//! same objects give the same nearest hit.
//!
//! The statement is about objects whose answers are the nearest crossing of
//! the ray with a fixed set of crossings, and about box tests that fail only
//! where no crossing lies in the window. Nothing else is asked of either.

use crate::bound::{enclosing_box_holds, Bound};
use crate::bvh::{node_box_holds_every_object, walk_reaches, BvhNode, BvhTree};
use crate::hittable::{prefer, scan_reaches, upper, HitRecord, Hittable, List};
use crate::ray::Ray;
use crate::scalar::Scalar;
use crate::vec3::{Position, Vec3f};
use vstd::prelude::*;

verus! {

/// Whether `u` lies in the window, its ends included.
pub open spec fn in_window(t_min: Scalar, t_max: Scalar, u: Scalar) -> bool {
    t_min.le_spec(u) && u.le_spec(t_max)
}

/// Whether `r` is the nearest crossing in the window among the objects of
/// `members`, where `cross(i, u)` says that the ray crosses object `i` at
/// parameter `u`: a record at a crossing in the window that no other such
/// crossing lies before, or nothing where no crossing is in the window.
pub open spec fn nearest_among(
    cross: spec_fn(int, Scalar) -> bool,
    members: Set<int>,
    t_min: Scalar,
    t_max: Scalar,
    r: Option<HitRecord>,
) -> bool {
    match r {
        Some(record) => in_window(t_min, t_max, record.t) && (exists|i: int|
            members.contains(i) && #[trigger] cross(i, record.t)) && forall|j: int, u: Scalar|
            members.contains(j) && #[trigger] cross(j, u) && in_window(t_min, t_max, u)
                ==> record.t.le_spec(u),
        None => forall|j: int, u: Scalar|
            members.contains(j) && #[trigger] cross(j, u) ==> !in_window(t_min, t_max, u),
    }
}

/// Whether every answer of `object`, which has number `i`, is its nearest
/// crossing in the window asked for.
pub open spec fn answers_nearest<H: Hittable>(
    object: H,
    i: int,
    ray: Ray,
    cross: spec_fn(int, Scalar) -> bool,
) -> bool {
    forall|t_min: Scalar, t_max: Scalar, r: Option<HitRecord>|
        !t_min.nan() && !t_max.nan() && #[trigger] object.may_hit(ray, t_min, t_max, r)
            ==> nearest_among(cross, set![i], t_min, t_max, r)
}

/// The first `k` object numbers.
pub open spec fn first(k: nat) -> Set<int> {
    Set::new(|j: int| 0 <= j < k)
}

/// The numbers of the objects at the leaves below `node`.
pub open spec fn leaves(node: BvhNode) -> Set<int> {
    Set::new(|j: int| node.has_leaf(j))
}

/// Whether the box test is safe below `node`: at each branch it fails only
/// on windows that hold no crossing of an object below that branch.
pub open spec fn conservative<F: Fn(Bound, Ray, Scalar, Scalar) -> bool>(
    node: BvhNode,
    ray: Ray,
    box_test: F,
    cross: spec_fn(int, Scalar) -> bool,
) -> bool
    decreases node,
{
    match node {
        BvhNode::Leaf { object } => true,
        BvhNode::Branch { left, right, bound } => conservative(*left, ray, box_test, cross)
            && conservative(*right, ray, box_test, cross) && forall|t_min: Scalar, t_max: Scalar| #[trigger]
            call_ensures(box_test, (bound, ray, t_min, t_max), false) ==> nearest_among(
                cross,
                leaves(node),
                t_min,
                t_max,
                None,
            ),
    }
}

/// What is kept of two searches, the second on the window that ends at the
/// hit of the first, is the nearest crossing among the objects of both.
pub proof fn nearest_of_both(
    cross: spec_fn(int, Scalar) -> bool,
    one: Set<int>,
    other: Set<int>,
    t_min: Scalar,
    t_max: Scalar,
    l: Option<HitRecord>,
    r: Option<HitRecord>,
)
    requires
        !t_min.nan(),
        !t_max.nan(),
        nearest_among(cross, one, t_min, t_max, l),
        nearest_among(cross, other, t_min, upper(l, t_max), r),
    ensures
        nearest_among(cross, one.union(other), t_min, t_max, prefer(r, l)),
{
    let both = one.union(other);
    let kept = prefer(r, l);
    match kept {
        Some(record) => {
            assert forall|j: int, u: Scalar|
                both.contains(j) && #[trigger] cross(j, u) && in_window(
                    t_min,
                    t_max,
                    u,
                ) implies record.t.le_spec(u) by {
                if other.contains(j) && l is Some {
                    if in_window(t_min, upper(l, t_max), u) {
                    } else {
                        assert(!u.le_spec(l.unwrap().t));
                    }
                }
            }
            if r is Some {
                let i = choose|i: int| other.contains(i) && #[trigger] cross(i, record.t);
                assert(both.contains(i));
            } else {
                let i = choose|i: int| one.contains(i) && #[trigger] cross(i, record.t);
                assert(both.contains(i));
            }
        },
        None => {},
    }
}

/// A scan of objects that answer their nearest crossing ends with the
/// nearest crossing among the objects scanned.
pub proof fn scan_is_nearest<H: Hittable>(
    items: Seq<H>,
    ray: Ray,
    t_min: Scalar,
    t_max: Scalar,
    k: nat,
    best: Option<HitRecord>,
    cross: spec_fn(int, Scalar) -> bool,
)
    requires
        k <= items.len(),
        !t_min.nan(),
        !t_max.nan(),
        forall|i: int| 0 <= i < k ==> answers_nearest(#[trigger] items[i], i, ray, cross),
        scan_reaches(items, ray, t_min, t_max, k, best),
    ensures
        nearest_among(cross, first(k), t_min, t_max, best),
    decreases k,
{
    if k > 0 {
        let (prev, answer) = choose|prev: Option<HitRecord>, answer: Option<HitRecord>|
            #![trigger prefer(answer, prev)]
            scan_reaches(items, ray, t_min, t_max, (k - 1) as nat, prev) && items[k - 1].may_hit(
                ray,
                t_min,
                upper(prev, t_max),
                answer,
            ) && best == prefer(answer, prev);
        scan_is_nearest(items, ray, t_min, t_max, (k - 1) as nat, prev, cross);
        assert(answers_nearest(items[k - 1], k - 1, ray, cross));
        assert(!upper(prev, t_max).nan());
        nearest_of_both(cross, first((k - 1) as nat), set![k - 1], t_min, t_max, prev, answer);
        assert(first((k - 1) as nat).union(set![k - 1]) =~= first(k));
    }
}

/// A walk below a node whose objects answer their nearest crossing, with a
/// box test that is safe there, ends with the nearest crossing among the
/// objects below the node.
pub proof fn walk_is_nearest<H: Hittable, F: Fn(Bound, Ray, Scalar, Scalar) -> bool>(
    objects: Seq<H>,
    node: BvhNode,
    ray: Ray,
    t_min: Scalar,
    t_max: Scalar,
    box_test: F,
    r: Option<HitRecord>,
    cross: spec_fn(int, Scalar) -> bool,
)
    requires
        node.within(objects.len()),
        !t_min.nan(),
        !t_max.nan(),
        forall|i: int| node.has_leaf(i) ==> answers_nearest(#[trigger] objects[i], i, ray, cross),
        conservative(node, ray, box_test, cross),
        walk_reaches(objects, node, ray, t_min, t_max, box_test, r),
    ensures
        nearest_among(cross, leaves(node), t_min, t_max, r),
    decreases node,
{
    match node {
        BvhNode::Leaf { object } => {
            assert(node.has_leaf(object as int));
            assert(answers_nearest(objects[object as int], object as int, ray, cross));
            assert(leaves(node) =~= set![object as int]);
        },
        BvhNode::Branch { left, right, bound } => {
            if call_ensures(box_test, (bound, ray, t_min, t_max), false) && r is None {
            } else {
                let (l, rt) = choose|l: Option<HitRecord>, rt: Option<HitRecord>|
                    #![trigger prefer(rt, l)]
                    walk_reaches(objects, *left, ray, t_min, t_max, box_test, l) && walk_reaches(
                        objects,
                        *right,
                        ray,
                        t_min,
                        upper(l, t_max),
                        box_test,
                        rt,
                    ) && r == prefer(rt, l);
                assert forall|i: int| left.has_leaf(i) implies answers_nearest(
                    #[trigger] objects[i],
                    i,
                    ray,
                    cross,
                ) by {
                    assert(node.has_leaf(i));
                }
                assert forall|i: int| right.has_leaf(i) implies answers_nearest(
                    #[trigger] objects[i],
                    i,
                    ray,
                    cross,
                ) by {
                    assert(node.has_leaf(i));
                }
                walk_is_nearest(objects, *left, ray, t_min, t_max, box_test, l, cross);
                assert(!upper(l, t_max).nan());
                walk_is_nearest(objects, *right, ray, t_min, upper(l, t_max), box_test, rt, cross);
                nearest_of_both(cross, leaves(*left), leaves(*right), t_min, t_max, l, rt);
                assert(leaves(*left).union(leaves(*right)) =~= leaves(node));
            }
        },
    }
}

/// Two nearest crossings among the same objects in the same window lie at
/// the same parameter: both are nothing, or both are records whose `t` are
/// equal as numbers.
pub proof fn nearest_is_unique(
    cross: spec_fn(int, Scalar) -> bool,
    members: Set<int>,
    t_min: Scalar,
    t_max: Scalar,
    a: Option<HitRecord>,
    b: Option<HitRecord>,
)
    requires
        nearest_among(cross, members, t_min, t_max, a),
        nearest_among(cross, members, t_min, t_max, b),
    ensures
        a is None <==> b is None,
        a is Some ==> a.unwrap().t.same(b.unwrap().t),
{
    if a is Some {
        let i = choose|i: int| members.contains(i) && #[trigger] cross(i, a.unwrap().t);
        assert(cross(i, a.unwrap().t));
    }
    if b is Some {
        let i = choose|i: int| members.contains(i) && #[trigger] cross(i, b.unwrap().t);
        assert(cross(i, b.unwrap().t));
    }
}

/// The hierarchy changes no result. For a tree over all objects of a list,
/// a ray, and a window whose ends are no NaN: if each object answers its
/// nearest crossing and the box test is safe, then whatever a scan of the
/// list returns and whatever a walk of the tree returns are both nothing,
/// or records at the same `t`.
pub proof fn tree_agrees_with_list<H: Hittable, F: Fn(Bound, Ray, Scalar, Scalar) -> bool>(
    tree: BvhTree<H>,
    list: List<H>,
    ray: Ray,
    t_min: Scalar,
    t_max: Scalar,
    box_test: F,
    cross: spec_fn(int, Scalar) -> bool,
    scanned: Option<HitRecord>,
    walked: Option<HitRecord>,
)
    requires
        tree.wf(),
        tree.objects@ == list.list@,
        forall|i: int| tree.root.has_leaf(i) <==> 0 <= i < list.list@.len(),
        !t_min.nan(),
        !t_max.nan(),
        forall|i: int|
            0 <= i < list.list@.len() ==> answers_nearest(#[trigger] list.list@[i], i, ray, cross),
        conservative(tree.root, ray, box_test, cross),
        list.may_hit(ray, t_min, t_max, scanned),
        walk_reaches(tree.objects@, tree.root, ray, t_min, t_max, box_test, walked),
    ensures
        scanned is None <==> walked is None,
        scanned is Some ==> scanned.unwrap().t.same(walked.unwrap().t),
{
    let n = list.list@.len();
    scan_is_nearest(list.list@, ray, t_min, t_max, n, scanned, cross);
    walk_is_nearest(tree.objects@, tree.root, ray, t_min, t_max, box_test, walked, cross);
    assert(leaves(tree.root) =~= first(n));
    nearest_is_unique(cross, first(n), t_min, t_max, scanned, walked);
}

/// Whether the box test is sound for a ray whose point at parameter `u` is
/// `at(u)`: it fails for a box and a window only if no point of the ray in
/// the window lies in the box.
pub open spec fn sound_test<F: Fn(Bound, Ray, Scalar, Scalar) -> bool>(
    box_test: F,
    ray: Ray,
    at: spec_fn(Scalar) -> Vec3f<Position>,
) -> bool {
    forall|b: Bound, t_min: Scalar, t_max: Scalar, u: Scalar|
        #![trigger call_ensures(box_test, (b, ray, t_min, t_max), false), at(u)]
        call_ensures(box_test, (b, ray, t_min, t_max), false) && in_window(t_min, t_max, u)
            ==> !b.holds(at(u))
}

/// Whether each object is crossed inside its box only.
pub open spec fn crossings_inside(
    cross: spec_fn(int, Scalar) -> bool,
    boxes: Seq<Bound>,
    at: spec_fn(Scalar) -> Vec3f<Position>,
) -> bool {
    forall|i: int, u: Scalar|
        0 <= i < boxes.len() && #[trigger] cross(i, u) ==> boxes[i].holds(at(u))
}

/// A sound box test is safe on a tree whose branches store the boxes round
/// their children, where each object is crossed inside its box only: the box
/// of a branch then holds every crossing below it, so the test cannot fail
/// on a window with such a crossing.
pub proof fn boxed_tree_is_conservative<F: Fn(Bound, Ray, Scalar, Scalar) -> bool>(
    node: BvhNode,
    boxes: Seq<Bound>,
    ray: Ray,
    box_test: F,
    cross: spec_fn(int, Scalar) -> bool,
    at: spec_fn(Scalar) -> Vec3f<Position>,
)
    requires
        node.within(boxes.len()),
        node.boxed(boxes),
        forall|j: int| 0 <= j < boxes.len() ==> (#[trigger] boxes[j]).defined(),
        sound_test(box_test, ray, at),
        crossings_inside(cross, boxes, at),
    ensures
        conservative(node, ray, box_test, cross),
    decreases node,
{
    match node {
        BvhNode::Leaf { object } => {},
        BvhNode::Branch { left, right, bound } => {
            boxed_tree_is_conservative(*left, boxes, ray, box_test, cross, at);
            boxed_tree_is_conservative(*right, boxes, ray, box_test, cross, at);
            assert forall|t_min: Scalar, t_max: Scalar| #[trigger]
                call_ensures(box_test, (bound, ray, t_min, t_max), false) implies nearest_among(
                cross,
                leaves(node),
                t_min,
                t_max,
                None,
            ) by {
                assert forall|j: int, u: Scalar|
                    leaves(node).contains(j) && #[trigger] cross(j, u) implies !in_window(
                    t_min,
                    t_max,
                    u,
                ) by {
                    node_box_holds_every_object(node, boxes, j);
                    enclosing_box_holds(bound, boxes[j], at(u));
                }
            }
        },
    }
}

/// The hierarchy that `BvhTree::new` builds over all objects of a list
/// changes no result. For boxes that the tree was built with, none with a
/// NaN in it, a ray with points `at(u)` and a window whose ends are no NaN:
/// if each object answers its nearest crossing and is crossed inside its box
/// only, and the box test is sound, then whatever a scan of the list returns
/// and whatever a walk of the tree returns are both nothing, or records at
/// the same `t`.
pub proof fn built_tree_agrees_with_list<H: Hittable, F: Fn(Bound, Ray, Scalar, Scalar) -> bool>(
    tree: BvhTree<H>,
    list: List<H>,
    initial_time: Scalar,
    final_time: Scalar,
    keys: Seq<Bound>,
    boxes: Seq<Bound>,
    ray: Ray,
    t_min: Scalar,
    t_max: Scalar,
    box_test: F,
    cross: spec_fn(int, Scalar) -> bool,
    at: spec_fn(Scalar) -> Vec3f<Position>,
    scanned: Option<HitRecord>,
    walked: Option<HitRecord>,
)
    requires
        tree.objects@ == list.list@,
        tree.built(0, list.list@.len() as int, initial_time, final_time, keys, boxes),
        forall|j: int| 0 <= j < boxes.len() ==> (#[trigger] boxes[j]).defined(),
        !t_min.nan(),
        !t_max.nan(),
        forall|i: int|
            0 <= i < list.list@.len() ==> answers_nearest(#[trigger] list.list@[i], i, ray, cross),
        crossings_inside(cross, boxes, at),
        sound_test(box_test, ray, at),
        list.may_hit(ray, t_min, t_max, scanned),
        walk_reaches(tree.objects@, tree.root, ray, t_min, t_max, box_test, walked),
    ensures
        scanned is None <==> walked is None,
        scanned is Some ==> scanned.unwrap().t.same(walked.unwrap().t),
{
    boxed_tree_is_conservative(tree.root, boxes, ray, box_test, cross, at);
    tree_agrees_with_list(tree, list, ray, t_min, t_max, box_test, cross, scanned, walked);
}

} // verus!
