//! Bounding volume hierarchy: a binary tree of boxes over the objects of a
//! scene, and the walk that finds the nearest hit in it.

use crate::bound::{surrounding_encloses_both, Bound};
use crate::hittable::{prefer, upper, HitRecord, Hittable, List};
use crate::random::random_axis;
use crate::ray::Ray;
use crate::scalar::{Scalar, ONE_BITS};
use vstd::prelude::*;
use vstd::seq_lib::{to_multiset_contains, to_multiset_insert};

verus! {

/// A node of the hierarchy: an object of the scene, by its number, or two
/// subtrees with the box round both.
pub enum BvhNode {
    Leaf { object: usize },
    Branch { left: Box<BvhNode>, right: Box<BvhNode>, bound: Bound },
}

impl BvhNode {
    /// Whether object `i` stands at a leaf below this node.
    pub open spec fn has_leaf(self, i: int) -> bool
        decreases self,
    {
        match self {
            BvhNode::Leaf { object } => object == i,
            BvhNode::Branch { left, right, bound } => left.has_leaf(i) || right.has_leaf(i),
        }
    }

    /// Every leaf names one of `count` objects.
    pub open spec fn within(self, count: nat) -> bool
        decreases self,
    {
        match self {
            BvhNode::Leaf { object } => object < count,
            BvhNode::Branch { left, right, bound } => left.within(count) && right.within(count),
        }
    }

    /// The box of the node, given the boxes of the objects: that of the
    /// object at a leaf, the stored one at a branch.
    pub open spec fn bound_spec(self, boxes: Seq<Bound>) -> Bound
        decreases self,
    {
        match self {
            BvhNode::Leaf { object } => boxes[object as int],
            BvhNode::Branch { left, right, bound } => bound,
        }
    }

    /// Each branch stores the box round the boxes of its two children.
    pub open spec fn boxed(self, boxes: Seq<Bound>) -> bool
        decreases self,
    {
        match self {
            BvhNode::Leaf { object } => true,
            BvhNode::Branch { left, right, bound } => left.boxed(boxes) && right.boxed(boxes)
                && bound == left.bound_spec(boxes).surrounding_spec(right.bound_spec(boxes)),
        }
    }
}

/// Whether a walk below `node` can return `r`. At a leaf the object is
/// probed. At a branch the ray is tested against the box: if it misses,
/// nothing is hit; else the left subtree is walked, then the right one on the
/// window that ends at the left hit, and the right hit is kept if there is
/// one.
pub open spec fn walk_reaches<H: Hittable, F: Fn(Bound, Ray, Scalar, Scalar) -> bool>(
    objects: Seq<H>,
    node: BvhNode,
    ray: Ray,
    t_min: Scalar,
    t_max: Scalar,
    box_test: F,
    r: Option<HitRecord>,
) -> bool
    decreases node,
{
    match node {
        BvhNode::Leaf { object } => objects[object as int].may_hit(ray, t_min, t_max, r),
        BvhNode::Branch { left, right, bound } => {
            ||| call_ensures(box_test, (bound, ray, t_min, t_max), false) && r is None
            ||| call_ensures(box_test, (bound, ray, t_min, t_max), true) && exists|
                l: Option<HitRecord>,
                rt: Option<HitRecord>,
            |
                #![trigger prefer(rt, l)]
                walk_reaches(objects, *left, ray, t_min, t_max, box_test, l) && walk_reaches(
                    objects,
                    *right,
                    ray,
                    t_min,
                    upper(l, t_max),
                    box_test,
                    rt,
                ) && r == prefer(rt, l)
        },
    }
}

/// Walks the hierarchy below `node` for the nearest hit in the window.
pub fn walk<H: Hittable, F: Fn(Bound, Ray, Scalar, Scalar) -> bool>(
    objects: &Vec<H>,
    node: &BvhNode,
    ray: Ray,
    t_min: Scalar,
    t_max: Scalar,
    box_test: &F,
) -> (r: Option<HitRecord>)
    requires
        node.within(objects@.len()),
        forall|b: Bound, y: Ray, lo: Scalar, hi: Scalar| call_requires(*box_test, (b, y, lo, hi)),
    ensures
        walk_reaches(objects@, *node, ray, t_min, t_max, *box_test, r),
    decreases node,
{
    match node {
        BvhNode::Leaf { object } => objects[*object].hit(ray, t_min, t_max),
        BvhNode::Branch { left, right, bound } => {
            if !box_test(*bound, ray, t_min, t_max) {
                return None;
            }
            let left_record = walk(objects, left, ray, t_min, t_max, box_test);
            let t = match left_record {
                Some(record) => record.t,
                None => t_max,
            };
            let right_record = walk(objects, right, ray, t_min, t, box_test);
            let r = if right_record.is_some() {
                right_record
            } else {
                left_record
            };
            proof {
                assert(r == prefer(right_record, left_record));
            }
            r
        },
    }
}

/// The box that stands for an object's answer: the box itself, or the
/// default box where the object has none.
pub open spec fn box_or_default(answer: Option<Bound>) -> Bound {
    match answer {
        Some(b) => b,
        None => Bound::default_spec(),
    }
}

/// Whether `boxes` can be what the objects answer for the time interval, one
/// box per object, the default box for an object without one.
pub open spec fn boxes_of<H: Hittable>(
    objects: Seq<H>,
    initial_time: Scalar,
    final_time: Scalar,
    boxes: Seq<Bound>,
) -> bool {
    boxes.len() == objects.len() && forall|i: int|
        0 <= i < objects.len() ==> box_answers(
            objects[i],
            initial_time,
            final_time,
            #[trigger] boxes[i],
        )
}

/// Whether `b` can stand for the object's box over the time interval.
pub open spec fn box_answers<H: Hittable>(
    object: H,
    initial_time: Scalar,
    final_time: Scalar,
    b: Bound,
) -> bool {
    exists|answer: Option<Bound>|
        object.may_bound(initial_time, final_time, answer) && b == #[trigger] box_or_default(
            answer,
        )
}

/// Whether `b` can stand for the object's box over the time interval, and
/// `lacks` says whether the object answered none, so that `b` is the default
/// box.
pub open spec fn box_stands_for<H: Hittable>(
    object: H,
    initial_time: Scalar,
    final_time: Scalar,
    b: Bound,
    lacks: bool,
) -> bool {
    exists|answer: Option<Bound>|
        object.may_bound(initial_time, final_time, answer) && b == #[trigger] box_or_default(
            answer,
        ) && lacks == (answer is None)
}

/// Whether `missing` numbers, in rising order, the objects that answered no
/// box when `boxes` were gathered.
pub open spec fn lacking<H: Hittable>(
    objects: Seq<H>,
    initial_time: Scalar,
    final_time: Scalar,
    boxes: Seq<Bound>,
    missing: Seq<usize>,
) -> bool {
    &&& boxes.len() == objects.len()
    &&& forall|i: int|
        0 <= i < objects.len() ==> box_stands_for(
            objects[i],
            initial_time,
            final_time,
            #[trigger] boxes[i],
            names(missing, i),
        )
    &&& forall|a: int, b: int| 0 <= a < b < missing.len() ==> missing[a] < missing[b]
    &&& forall|k: int| 0 <= k < missing.len() ==> missing[k] < objects.len()
}

/// The key by which object `i` is ordered along `axis`: that component of
/// the minimum of its box.
pub open spec fn axis_key(keys: Seq<Bound>, i: int, axis: nat) -> Scalar {
    keys[i].min.component(axis)
}

/// No object of `s` stands before one with a smaller key.
pub open spec fn ordered(s: Seq<usize>, keys: Seq<Bound>, axis: nat) -> bool {
    forall|a: int, b: int|
        0 <= a < b < s.len() ==> !axis_key(keys, #[trigger] s[b] as int, axis).lt_spec(
            axis_key(keys, #[trigger] s[a] as int, axis),
        )
}

/// No object below `right` has a smaller key along `axis` than one below
/// `left`.
pub open spec fn split_along(left: BvhNode, right: BvhNode, keys: Seq<Bound>, axis: nat) -> bool {
    forall|i: int, j: int|
        #![trigger left.has_leaf(i), right.has_leaf(j)]
        left.has_leaf(i) && right.has_leaf(j) ==> !axis_key(keys, j, axis).lt_spec(
            axis_key(keys, i, axis),
        )
}

impl BvhNode {
    /// At each branch the objects are split along one of the three axes:
    /// those with the smaller keys stand on the left.
    pub open spec fn sorted(self, keys: Seq<Bound>) -> bool
        decreases self,
    {
        match self {
            BvhNode::Leaf { object } => true,
            BvhNode::Branch { left, right, bound } => left.sorted(keys) && right.sorted(keys)
                && exists|axis: nat| axis < 3 && #[trigger] split_along(*left, *right, keys, axis),
        }
    }

    /// The node is the hierarchy over `n` objects: a branch with the same
    /// object on both sides for one object, a branch of two objects for two,
    /// and for more a branch whose left side is the hierarchy over half of
    /// them, rounded down, and whose right side is that over the rest.
    pub open spec fn shaped(self, n: nat) -> bool
        decreases self,
    {
        match self {
            BvhNode::Leaf { object } => false,
            BvhNode::Branch { left, right, bound } => if n <= 2 {
                n >= 1 && *left is Leaf && *right is Leaf && (n == 1 ==> left->object
                    == right->object)
            } else {
                left.shaped(n / 2) && right.shaped((n - n / 2) as nat)
            },
        }
    }

    /// The box of the node: that of the object at a leaf, the stored one at
    /// a branch.
    pub fn bound(&self, boxes: &Vec<Bound>) -> (r: Bound)
        requires
            self.within(boxes@.len()),
        ensures
            r == self.bound_spec(boxes@),
    {
        match self {
            BvhNode::Leaf { object } => boxes[*object],
            BvhNode::Branch { left, right, bound } => *bound,
        }
    }
}

/// The boxes of the objects over the time interval, the default box for an
/// object without one, and the numbers of the objects without one, so that
/// the caller can tell of them.
pub fn object_boxes<H: Hittable>(objects: &Vec<H>, initial_time: Scalar, final_time: Scalar) -> (r: (
    Vec<Bound>,
    Vec<usize>,
))
    ensures
        boxes_of(objects@, initial_time, final_time, r.0@),
        lacking(objects@, initial_time, final_time, r.0@, r.1@),
{
    let mut boxes: Vec<Bound> = Vec::new();
    let mut missing: Vec<usize> = Vec::new();
    let mut i: usize = 0;
    while i < objects.len()
        invariant
            i <= objects@.len(),
            boxes@.len() == i,
            forall|j: int|
                0 <= j < i ==> box_stands_for(
                    objects@[j],
                    initial_time,
                    final_time,
                    #[trigger] boxes@[j],
                    names(missing@, j),
                ),
            forall|a: int, b: int| 0 <= a < b < missing@.len() ==> missing@[a] < missing@[b],
            forall|k: int| 0 <= k < missing@.len() ==> missing@[k] < i,
        decreases objects@.len() - i,
    {
        let answer = objects[i].bounding_box(initial_time, final_time);
        let ghost before = missing@;
        let ghost held = boxes@;
        let b = match answer {
            Some(b) => b,
            None => {
                missing.push(i);
                Bound::default()
            },
        };
        boxes.push(b);
        proof {
            assert(b == box_or_default(answer));
            assert forall|j: int| 0 <= j < i implies names(missing@, j) == names(before, j) by {
                if names(before, j) {
                    let k = choose|k: int| 0 <= k < before.len() && #[trigger] before[k] == j;
                    assert(missing@[k] == j);
                }
                if names(missing@, j) {
                    let k = choose|k: int| 0 <= k < missing@.len() && #[trigger] missing@[k] == j;
                    assert(k < before.len());
                    assert(before[k] == j);
                }
            }
            if answer is None {
                assert(missing@[missing@.len() - 1] == i);
                assert(names(missing@, i as int));
            } else {
                assert(!names(missing@, i as int));
            }
            assert forall|j: int| 0 <= j < i + 1 implies box_stands_for(
                objects@[j],
                initial_time,
                final_time,
                #[trigger] boxes@[j],
                names(missing@, j),
            ) by {
                if j < i {
                    assert(boxes@[j] == held[j]);
                    assert(box_stands_for(
                        objects@[j],
                        initial_time,
                        final_time,
                        held[j],
                        names(before, j),
                    ));
                }
            }
        }
        i += 1;
    }
    (boxes, missing)
}

/// Where an object with key `key` goes into the ordered objects `out`:
/// before the first one with a larger key, or at the end.
pub open spec fn place(out: Seq<usize>, key: Scalar, keys: Seq<Bound>, axis: nat) -> int
    decreases out.len(),
{
    if out.len() == 0 {
        0
    } else if key.lt_spec(axis_key(keys, out[0] as int, axis)) {
        0
    } else {
        1 + place(out.skip(1), key, keys, axis)
    }
}

/// The first `k` objects of `span` in order of their keys along `axis`:
/// each is put in its place among those before it, so that objects with
/// equal keys keep their order.
pub open spec fn inserted(span: Seq<usize>, keys: Seq<Bound>, axis: nat, k: nat) -> Seq<usize>
    decreases k,
{
    if k == 0 {
        Seq::empty()
    } else {
        let out = inserted(span, keys, axis, (k - 1) as nat);
        out.insert(place(out, axis_key(keys, span[k - 1] as int, axis), keys, axis), span[k - 1])
    }
}

/// Orders the objects of `span` by their key along `axis`, smallest first;
/// objects with equal keys keep their order.
pub fn sort_span(span: &Vec<usize>, keys: &Vec<Bound>, axis: usize) -> (r: Vec<usize>)
    requires
        axis < 3,
        forall|i: int| 0 <= i < span@.len() ==> span@[i] < keys@.len(),
    ensures
        r@ == inserted(span@, keys@, axis as nat, span@.len()),
        r@.len() == span@.len(),
        r@.to_multiset() == span@.to_multiset(),
        forall|x: usize| r@.contains(x) <==> span@.contains(x),
        forall|i: int| 0 <= i < r@.len() ==> r@[i] < keys@.len(),
        ordered(r@, keys@, axis as nat),
{
    let mut out: Vec<usize> = Vec::new();
    let mut i: usize = 0;
    assert(span@.subrange(0, 0) =~= Seq::<usize>::empty());
    while i < span.len()
        invariant
            axis < 3,
            i <= span@.len(),
            out@.len() == i,
            out@ == inserted(span@, keys@, axis as nat, i as nat),
            out@.to_multiset() == span@.subrange(0, i as int).to_multiset(),
            forall|j: int| 0 <= j < span@.len() ==> span@[j] < keys@.len(),
            forall|j: int| 0 <= j < out@.len() ==> out@[j] < keys@.len(),
            ordered(out@, keys@, axis as nat),
        decreases span@.len() - i,
    {
        let v = span[i];
        let key = keys[v].min.at(axis);
        let mut p: usize = 0;
        assert(out@.skip(0) =~= out@);
        while p < out.len() && !key.lt(keys[out[p]].min.at(axis))
            invariant
                axis < 3,
                p <= out@.len(),
                v < keys@.len(),
                key == axis_key(keys@, v as int, axis as nat),
                forall|j: int| 0 <= j < out@.len() ==> out@[j] < keys@.len(),
                forall|q: int|
                    0 <= q < p ==> !key.lt_spec(axis_key(keys@, #[trigger] out@[q] as int, axis as nat)),
                place(out@, key, keys@, axis as nat) == p + place(
                    out@.skip(p as int),
                    key,
                    keys@,
                    axis as nat,
                ),
            decreases out@.len() - p,
        {
            proof {
                assert(out@.skip(p as int)[0] == out@[p as int]);
                assert(out@.skip(p as int).skip(1) =~= out@.skip(p + 1));
            }
            p += 1;
        }
        proof {
            if p < out@.len() {
                assert(out@.skip(p as int)[0] == out@[p as int]);
            }
            assert(place(out@, key, keys@, axis as nat) == p);
        }
        let ghost before = out@;
        out.insert(p, v);
        proof {
            before.insert_ensures(p as int, v);
            assert(span@.subrange(0, i + 1) =~= span@.subrange(0, i as int).push(v));
            assert(span@.subrange(0, i as int).push(v) =~= span@.subrange(0, i as int).insert(
                i as int,
                v,
            ));
            to_multiset_insert(before, p as int, v);
            to_multiset_insert(span@.subrange(0, i as int), i as int, v);
            assert(out@.to_multiset() == span@.subrange(0, i + 1).to_multiset());
            assert forall|j: int| 0 <= j < out@.len() implies out@[j] < keys@.len() by {
                if j > p {
                    assert(out@[j] == before[j - 1]);
                }
            }
            assert forall|a: int, b: int| 0 <= a < b < out@.len() implies !axis_key(
                keys@,
                #[trigger] out@[b] as int,
                axis as nat,
            ).lt_spec(axis_key(keys@, #[trigger] out@[a] as int, axis as nat)) by {
                if a > p {
                    assert(out@[a] == before[a - 1]);
                }
                if b > p {
                    assert(out@[b] == before[b - 1]);
                }
                if b > p && p < before.len() {
                    assert(!axis_key(keys@, before[b - 1] as int, axis as nat).lt_spec(
                        axis_key(keys@, before[p as int] as int, axis as nat),
                    ) || b - 1 == p);
                }
            }
        }
        i += 1;
    }
    proof {
        broadcast use to_multiset_contains;

        assert(span@.subrange(0, span@.len() as int) =~= span@);
        assert forall|x: usize| out@.contains(x) <==> span@.contains(x) by {
            assert(out@.to_multiset().count(x) == span@.to_multiset().count(x));
        }
    }
    out
}

/// Whether object `i` is named in `span`.
pub open spec fn names(span: Seq<usize>, i: int) -> bool {
    exists|k: int| 0 <= k < span.len() && #[trigger] span[k] == i
}

/// The objects named in a span are those named in its two parts.
pub proof fn names_split(s: Seq<usize>, mid: int, i: int)
    requires
        0 <= mid <= s.len(),
    ensures
        names(s, i) <==> names(s.subrange(0, mid), i) || names(s.subrange(mid, s.len() as int), i),
{
    let l = s.subrange(0, mid);
    let r = s.subrange(mid, s.len() as int);
    if names(s, i) {
        let k = choose|k: int| 0 <= k < s.len() && #[trigger] s[k] == i;
        if k < mid {
            assert(l[k] == i);
        } else {
            assert(r[k - mid] == i);
        }
    }
    if names(l, i) {
        let k = choose|k: int| 0 <= k < l.len() && #[trigger] l[k] == i;
        assert(s[k] == i);
    }
    if names(r, i) {
        let k = choose|k: int| 0 <= k < r.len() && #[trigger] r[k] == i;
        assert(s[k + mid] == i);
    }
}

/// The part of `v` from `lo` up to `hi`.
pub fn copy_range(v: &Vec<usize>, lo: usize, hi: usize) -> (r: Vec<usize>)
    requires
        lo <= hi <= v@.len(),
    ensures
        r@ == v@.subrange(lo as int, hi as int),
{
    let mut out: Vec<usize> = Vec::new();
    let mut i: usize = lo;
    while i < hi
        invariant
            lo <= i <= hi <= v@.len(),
            out@ == v@.subrange(lo as int, i as int),
        decreases hi - i,
    {
        out.push(v[i]);
        proof {
            assert(v@.subrange(lo as int, i + 1) =~= v@.subrange(lo as int, i as int).push(v@[i as int]));
        }
        i += 1;
    }
    out
}

/// The axis along which the branch with number `k` is split, for the axes
/// given: they are taken in turn and started over at the end, a number that
/// is no axis is taken modulo three, and with no axes given it is x.
pub open spec fn axis_at(axes: Seq<usize>, k: nat) -> nat {
    if axes.len() == 0 {
        0
    } else {
        (axes[(k % axes.len()) as int] % 3) as nat
    }
}

/// The number of branches of the hierarchy over `n` objects.
pub open spec fn branches(n: nat) -> nat
    decreases n,
{
    if n <= 2 {
        1
    } else {
        1 + branches(n / 2) + branches((n - n / 2) as nat)
    }
}

/// The first `mid` of the objects.
pub open spec fn lower_half(ordered_span: Seq<usize>, mid: nat) -> Seq<usize> {
    Seq::new(mid, |i: int| ordered_span[i])
}

/// The objects from `mid` up to `n`.
pub open spec fn upper_half(ordered_span: Seq<usize>, mid: nat, n: nat) -> Seq<usize> {
    Seq::new((n - mid) as nat, |i: int| ordered_span[mid + i])
}

/// The branch over two nodes, with the box round their boxes.
pub open spec fn branch_of(left: BvhNode, right: BvhNode, boxes: Seq<Bound>) -> BvhNode {
    BvhNode::Branch {
        left: Box::new(left),
        right: Box::new(right),
        bound: left.bound_spec(boxes).surrounding_spec(right.bound_spec(boxes)),
    }
}

/// The hierarchy over the objects named in `span`, for the axes given, its
/// branches numbered from `first` on: a branch before the branches on its
/// left, and those before the branches on its right. One object stands on
/// both sides of its branch; of two, the first stands on the left where its
/// key along the branch's axis is the smaller, and else the second; more
/// are ordered by key along the axis, those with equal keys as they come,
/// and halved, the smaller half on the left.
pub open spec fn hierarchy(
    span: Seq<usize>,
    keys: Seq<Bound>,
    boxes: Seq<Bound>,
    axes: Seq<usize>,
    first: nat,
) -> BvhNode
    decreases span.len(),
{
    let axis = axis_at(axes, first);
    let n = span.len();
    if n <= 1 {
        branch_of(BvhNode::Leaf { object: span[0] }, BvhNode::Leaf { object: span[0] }, boxes)
    } else if n == 2 {
        if axis_key(keys, span[0] as int, axis).lt_spec(axis_key(keys, span[1] as int, axis)) {
            branch_of(BvhNode::Leaf { object: span[0] }, BvhNode::Leaf { object: span[1] }, boxes)
        } else {
            branch_of(BvhNode::Leaf { object: span[1] }, BvhNode::Leaf { object: span[0] }, boxes)
        }
    } else {
        let ordered_span = inserted(span, keys, axis, n);
        let mid = n / 2;
        branch_of(
            hierarchy(lower_half(ordered_span, mid), keys, boxes, axes, first + 1),
            hierarchy(
                upper_half(ordered_span, mid, n),
                keys,
                boxes,
                axes,
                first + 1 + branches(mid),
            ),
            boxes,
        )
    }
}

/// Builds the hierarchy over the objects named in `span`, its branches
/// numbered from `first` on. The axes are those given, or drawn at random
/// where none are given. Returns the hierarchy and the number of the next
/// branch.
fn build_from(
    span: &Vec<usize>,
    keys: &Vec<Bound>,
    boxes: &Vec<Bound>,
    axes: Option<&Vec<usize>>,
    first: u128,
) -> (r: (BvhNode, u128))
    requires
        span@.len() >= 1,
        keys@.len() == boxes@.len(),
        forall|k: int| 0 <= k < span@.len() ==> span@[k] < boxes@.len(),
        first + 2 * span@.len() <= 0x1_0000_0000_0000_0000_0000,
    ensures
        r.0 is Branch,
        r.0.within(boxes@.len()),
        r.0.boxed(boxes@),
        r.0.sorted(keys@),
        r.0.shaped(span@.len()),
        forall|i: int| r.0.has_leaf(i) <==> names(span@, i),
        r.1 == first + branches(span@.len()),
        r.1 <= first + 2 * span@.len() - 1,
        axes matches Some(given) ==> r.0 == hierarchy(span@, keys@, boxes@, given@, first as nat),
    decreases span@.len(),
{
    let axis: usize = match axes {
        Some(given) => if given.len() == 0 {
            0
        } else {
            given[(first % (given.len() as u128)) as usize] % 3
        },
        None => random_axis(),
    };
    proof {
        if axes is Some {
            assert(axis == axis_at(axes.unwrap()@, first as nat));
        }
    }
    let n = span.len();
    let next: u128;
    let left: BvhNode;
    let right: BvhNode;
    if n == 1 {
        left = BvhNode::Leaf { object: span[0] };
        right = BvhNode::Leaf { object: span[0] };
        next = first + 1;
        proof {
            assert forall|i: int| (left.has_leaf(i) || right.has_leaf(i)) <==> names(span@, i) by {
                if i == span@[0] {
                    assert(span@[0] == i);
                }
            }
        }
    } else if n == 2 {
        let one = span[0];
        let other = span[1];
        if keys[one].min.at(axis).lt(keys[other].min.at(axis)) {
            left = BvhNode::Leaf { object: one };
            right = BvhNode::Leaf { object: other };
        } else {
            left = BvhNode::Leaf { object: other };
            right = BvhNode::Leaf { object: one };
        }
        next = first + 1;
        proof {
            assert forall|i: int| (left.has_leaf(i) || right.has_leaf(i)) <==> names(span@, i) by {
                if i == span@[0] {
                    assert(span@[0] == i);
                }
                if i == span@[1] {
                    assert(span@[1] == i);
                }
            }
        }
    } else {
        let ordered_span = sort_span(span, keys, axis);
        let mid = n / 2;
        let lower = copy_range(&ordered_span, 0, mid);
        let higher = copy_range(&ordered_span, mid, n);
        proof {
            assert(lower@ =~= lower_half(ordered_span@, mid as nat));
            assert(higher@ =~= upper_half(ordered_span@, mid as nat, n as nat));
        }
        let (l, after_left) = build_from(&lower, keys, boxes, axes, first + 1);
        let (r, after_right) = build_from(&higher, keys, boxes, axes, after_left);
        left = l;
        right = r;
        next = after_right;
        proof {
            assert forall|i: int| (left.has_leaf(i) || right.has_leaf(i)) <==> names(span@, i) by {
                names_split(ordered_span@, mid as int, i);
                if names(ordered_span@, i) {
                    let k = choose|k: int| 0 <= k < ordered_span@.len() && #[trigger] ordered_span@[k] == i;
                    assert(ordered_span@.contains(ordered_span@[k]));
                    let k2 = choose|k2: int| 0 <= k2 < span@.len() && span@[k2] == ordered_span@[k];
                    assert(span@[k2] == i);
                }
                if names(span@, i) {
                    let k = choose|k: int| 0 <= k < span@.len() && #[trigger] span@[k] == i;
                    assert(span@.contains(span@[k]));
                    let k2 = choose|k2: int| 0 <= k2 < ordered_span@.len() && ordered_span@[k2] == span@[k];
                    assert(ordered_span@[k2] == i);
                }
            }
            assert forall|i: int, j: int|
                #![trigger left.has_leaf(i), right.has_leaf(j)]
                left.has_leaf(i) && right.has_leaf(j) implies !axis_key(keys@, j, axis as nat).lt_spec(
                axis_key(keys@, i, axis as nat),
            ) by {
                let a = choose|a: int| 0 <= a < lower@.len() && #[trigger] lower@[a] == i;
                let b = choose|b: int| 0 <= b < higher@.len() && #[trigger] higher@[b] == j;
                assert(ordered_span@[a] == i);
                assert(ordered_span@[b + mid] == j);
            }
        }
    }
    proof {
        assert(split_along(left, right, keys@, axis as nat));
        assert(left.within(boxes@.len()) && right.within(boxes@.len()));
        assert(left.boxed(boxes@) && right.boxed(boxes@));
        assert(left.sorted(keys@) && right.sorted(keys@));
        assert(n > 2 ==> left.shaped((n / 2) as nat) && right.shaped((n - n / 2) as nat));
    }
    let bound = left.bound(boxes).surrounding(right.bound(boxes));
    let node = BvhNode::Branch { left: Box::new(left), right: Box::new(right), bound };
    proof {
        assert forall|i: int| node.has_leaf(i) <==> names(span@, i) by {
            assert(node.has_leaf(i) <==> left.has_leaf(i) || right.has_leaf(i));
        }
        assert(node == branch_of(left, right, boxes@));
    }
    (node, next)
}

/// Builds the hierarchy over the objects named in `span`. A span of one
/// object gives a branch with that object on both sides, a span of two a
/// branch with the one of the smaller key on the left. A longer span is
/// ordered by key along an axis drawn at random and split in the middle.
pub fn build(span: &Vec<usize>, keys: &Vec<Bound>, boxes: &Vec<Bound>) -> (node: BvhNode)
    requires
        span@.len() >= 1,
        keys@.len() == boxes@.len(),
        forall|k: int| 0 <= k < span@.len() ==> span@[k] < boxes@.len(),
    ensures
        node is Branch,
        node.within(boxes@.len()),
        node.boxed(boxes@),
        node.sorted(keys@),
        node.shaped(span@.len()),
        forall|i: int| node.has_leaf(i) <==> names(span@, i),
{
    let n = span.len();
    assert(2 * n <= 0x1_0000_0000_0000_0000_0000);
    build_from(span, keys, boxes, None, 0).0
}

/// Builds the hierarchy over the objects named in `span` as `build` does,
/// with the axes given in place of those drawn: the hierarchy is then the
/// same whenever the arguments are.
pub fn build_with(span: &Vec<usize>, keys: &Vec<Bound>, boxes: &Vec<Bound>, axes: &Vec<usize>) -> (node:
    BvhNode)
    requires
        span@.len() >= 1,
        keys@.len() == boxes@.len(),
        forall|k: int| 0 <= k < span@.len() ==> span@[k] < boxes@.len(),
    ensures
        node == hierarchy(span@, keys@, boxes@, axes@, 0),
        node is Branch,
        node.within(boxes@.len()),
        node.boxed(boxes@),
        node.sorted(keys@),
        node.shaped(span@.len()),
        forall|i: int| node.has_leaf(i) <==> names(span@, i),
{
    let n = span.len();
    assert(2 * n <= 0x1_0000_0000_0000_0000_0000);
    build_from(span, keys, boxes, Some(axes), 0).0
}


/// The numbers from `start` up to `end`, in order.
pub open spec fn numbers(start: int, end: int) -> Seq<usize> {
    Seq::new((end - start) as nat, |k: int| (start + k) as usize)
}

/// Bounding volume hierarchy over a set of objects.
pub struct BvhTree<H> {
    /// The objects of the scene; the leaves name them by position.
    pub objects: Vec<H>,
    /// The root of the hierarchy.
    pub root: BvhNode,
    /// The numbers of the objects that answered no box when the hierarchy
    /// was built, and stand in it with the default box: a scene that has
    /// such objects is suspect, and the caller may say so.
    pub unbounded: Vec<usize>,
}

impl<H: Hittable> BvhTree<H> {
    /// The root is a branch and every leaf names an object of the tree.
    pub open spec fn wf(self) -> bool {
        self.root is Branch && self.root.within(self.objects@.len())
    }

    /// Whether the tree can be what `new` builds over the objects from
    /// `start` up to `end`: `keys` and `boxes` are boxes that the objects can
    /// answer at time zero and over the time interval; the leaves are those
    /// objects, each branch halves its objects, split by key along one
    /// axis, and stores the box round its children; and `unbounded` numbers
    /// the objects that answered no box over the time interval.
    pub open spec fn built(
        self,
        start: int,
        end: int,
        initial_time: Scalar,
        final_time: Scalar,
        keys: Seq<Bound>,
        boxes: Seq<Bound>,
    ) -> bool {
        &&& self.wf()
        &&& boxes_of(self.objects@, Scalar { bits: 0 }, Scalar { bits: 0 }, keys)
        &&& boxes_of(self.objects@, initial_time, final_time, boxes)
        &&& lacking(self.objects@, initial_time, final_time, boxes, self.unbounded@)
        &&& self.root.boxed(boxes)
        &&& self.root.sorted(keys)
        &&& self.root.shaped((end - start) as nat)
        &&& forall|i: int| self.root.has_leaf(i) <==> start <= i < end
    }

    /// Builds the hierarchy over all objects of the list.
    pub fn from_time(list: List<H>, initial_time: Scalar, final_time: Scalar) -> (r: Self)
        requires
            list.list@.len() > 0,
        ensures
            r.objects@ == list.list@,
            exists|keys: Seq<Bound>, boxes: Seq<Bound>| #[trigger]
                r.built(0, list.list@.len() as int, initial_time, final_time, keys, boxes),
    {
        let length = list.list.len();
        Self::new(list.list, 0, length, initial_time, final_time)
    }

    /// Builds the hierarchy over all objects of the list, for times from
    /// zero to one.
    pub fn from(list: List<H>) -> (r: Self)
        requires
            list.list@.len() > 0,
        ensures
            r.objects@ == list.list@,
            exists|keys: Seq<Bound>, boxes: Seq<Bound>| #[trigger]
                r.built(
                    0,
                    list.list@.len() as int,
                    Scalar { bits: 0 },
                    Scalar { bits: ONE_BITS },
                    keys,
                    boxes,
                ),
    {
        Self::from_time(list, Scalar { bits: 0 }, Scalar { bits: ONE_BITS })
    }

    /// Whether the tree can be what `with_axes` builds: what `new` builds,
    /// and the root the hierarchy over the objects from `start` up to `end`
    /// for the keys, the boxes and the axes.
    pub open spec fn built_with(
        self,
        start: int,
        end: int,
        initial_time: Scalar,
        final_time: Scalar,
        keys: Seq<Bound>,
        boxes: Seq<Bound>,
        axes: Seq<usize>,
    ) -> bool {
        &&& self.built(start, end, initial_time, final_time, keys, boxes)
        &&& self.root == hierarchy(numbers(start, end), keys, boxes, axes, 0)
    }

    /// Gathers the boxes and builds the hierarchy over the objects from
    /// `start` up to `end`, with the axes given or with axes drawn.
    fn assemble(
        objects: Vec<H>,
        start: usize,
        end: usize,
        initial_time: Scalar,
        final_time: Scalar,
        axes: Option<&Vec<usize>>,
    ) -> (r: Self)
        requires
            start < end <= objects@.len(),
        ensures
            r.objects@ == objects@,
            exists|keys: Seq<Bound>, boxes: Seq<Bound>|
                #![trigger r.built(start as int, end as int, initial_time, final_time, keys, boxes)]
                r.built(start as int, end as int, initial_time, final_time, keys, boxes) && (axes
                    matches Some(given) ==> r.root == hierarchy(
                    numbers(start as int, end as int),
                    keys,
                    boxes,
                    given@,
                    0,
                )),
    {
        let zero = Scalar { bits: 0 };
        let (keys, _) = object_boxes(&objects, zero, zero);
        let (boxes, unbounded) = object_boxes(&objects, initial_time, final_time);
        let mut span: Vec<usize> = Vec::new();
        let mut i: usize = start;
        while i < end
            invariant
                start <= i <= end,
                span@.len() == i - start,
                forall|k: int| 0 <= k < span@.len() ==> span@[k] == start + k,
            decreases end - i,
        {
            span.push(i);
            i += 1;
        }
        proof {
            assert(span@ =~= numbers(start as int, end as int));
        }
        let root = match axes {
            Some(given) => build_with(&span, &keys, &boxes, given),
            None => build(&span, &keys, &boxes),
        };
        let tree = BvhTree { objects, root, unbounded };
        proof {
            assert forall|i: int| tree.root.has_leaf(i) <==> start <= i < end by {
                if start <= i < end {
                    assert(span@[i - start] == i);
                }
            }
            assert(tree.built(start as int, end as int, initial_time, final_time, keys@, boxes@));
        }
        tree
    }

    /// Builds the hierarchy over the objects from `start` up to `end`, each
    /// branch split along an axis drawn at random.
    pub fn new(
        objects: Vec<H>,
        start: usize,
        end: usize,
        initial_time: Scalar,
        final_time: Scalar,
    ) -> (r: Self)
        requires
            start < end <= objects@.len(),
        ensures
            r.objects@ == objects@,
            exists|keys: Seq<Bound>, boxes: Seq<Bound>| #[trigger]
                r.built(start as int, end as int, initial_time, final_time, keys, boxes),
    {
        Self::assemble(objects, start, end, initial_time, final_time, None)
    }

    /// Builds the hierarchy over the objects from `start` up to `end` as
    /// `new` does, with the axes given in place of those drawn: for the
    /// same objects, times and axes the hierarchy is the same, whenever the
    /// objects answer the same boxes.
    pub fn with_axes(
        objects: Vec<H>,
        start: usize,
        end: usize,
        initial_time: Scalar,
        final_time: Scalar,
        axes: &Vec<usize>,
    ) -> (r: Self)
        requires
            start < end <= objects@.len(),
        ensures
            r.objects@ == objects@,
            exists|keys: Seq<Bound>, boxes: Seq<Bound>| #[trigger]
                r.built_with(
                    start as int,
                    end as int,
                    initial_time,
                    final_time,
                    keys,
                    boxes,
                    axes@,
                ),
    {
        let tree = Self::assemble(objects, start, end, initial_time, final_time, Some(axes));
        proof {
            let (keys, boxes) = choose|keys: Seq<Bound>, boxes: Seq<Bound>|
                #![trigger tree.built(start as int, end as int, initial_time, final_time, keys, boxes)]
                tree.built(start as int, end as int, initial_time, final_time, keys, boxes)
                    && tree.root == hierarchy(
                    numbers(start as int, end as int),
                    keys,
                    boxes,
                    axes@,
                    0,
                );
            assert(tree.built_with(
                start as int,
                end as int,
                initial_time,
                final_time,
                keys,
                boxes,
                axes@,
            ));
        }
        tree
    }

    /// The nearest hit of the ray in the window. `box_test` says whether a
    /// ray meets a box within a window; the subtree under a box that the ray
    /// misses is left out.
    pub fn hit<F: Fn(Bound, Ray, Scalar, Scalar) -> bool>(
        &self,
        ray: Ray,
        t_min: Scalar,
        t_max: Scalar,
        box_test: F,
    ) -> (r: Option<HitRecord>)
        requires
            self.wf(),
            forall|b: Bound, y: Ray, lo: Scalar, hi: Scalar| call_requires(box_test, (b, y, lo, hi)),
        ensures
            walk_reaches(self.objects@, self.root, ray, t_min, t_max, box_test, r),
    {
        walk(&self.objects, &self.root, ray, t_min, t_max, &box_test)
    }

    /// The box round everything in the tree.
    pub fn bounding_box(&self, initial_time: Scalar, final_time: Scalar) -> (r: Option<Bound>)
        requires
            self.wf(),
        ensures
            r == Some(self.root->bound),
    {
        match &self.root {
            BvhNode::Branch { left, right, bound } => Some(*bound),
            BvhNode::Leaf { object } => None,
        }
    }
}

/// The box of a node is free of NaN where the boxes of the objects are.
pub proof fn node_box_is_defined(node: BvhNode, boxes: Seq<Bound>)
    requires
        node.within(boxes.len()),
        node.boxed(boxes),
        forall|j: int| 0 <= j < boxes.len() ==> (#[trigger] boxes[j]).defined(),
    ensures
        node.bound_spec(boxes).defined(),
    decreases node,
{
    match node {
        BvhNode::Leaf { object } => {},
        BvhNode::Branch { left, right, bound } => {
            node_box_is_defined(*left, boxes);
            node_box_is_defined(*right, boxes);
            surrounding_encloses_both(left.bound_spec(boxes), right.bound_spec(boxes));
        },
    }
}

/// The box of a node holds the box of every object below it, where no box
/// has a NaN in it: a ray that is to hit an object below a branch has to
/// pass through the box of the branch.
pub proof fn node_box_holds_every_object(node: BvhNode, boxes: Seq<Bound>, i: int)
    requires
        node.within(boxes.len()),
        node.boxed(boxes),
        node.has_leaf(i),
        forall|j: int| 0 <= j < boxes.len() ==> (#[trigger] boxes[j]).defined(),
    ensures
        0 <= i < boxes.len(),
        node.bound_spec(boxes).encloses(boxes[i]),
    decreases node,
{
    match node {
        BvhNode::Leaf { object } => {
            assert(boxes[i].defined());
        },
        BvhNode::Branch { left, right, bound } => {
            node_box_is_defined(*left, boxes);
            node_box_is_defined(*right, boxes);
            surrounding_encloses_both(left.bound_spec(boxes), right.bound_spec(boxes));
            if left.has_leaf(i) {
                node_box_holds_every_object(*left, boxes, i);
            } else {
                node_box_holds_every_object(*right, boxes, i);
            }
            assert(boxes[i].defined());
        },
    }
}

} // verus!
