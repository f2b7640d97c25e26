//! Perlin noise: the lattice of random vectors that the noise is
//! interpolated from.

use crate::random::shuffle;
use crate::vec3::{Position, Vec3f};
use vstd::prelude::*;
use vstd::seq_lib::to_multiset_contains;

verus! {

/// The number of lattice vectors, and the length of each permutation.
pub const POINT_COUNT: usize = 256;

/// The lattice: random vectors, and one permutation of their numbers for
/// each axis.
pub struct Perlin {
    pub random_points: Vec<Vec3f<Position>>,
    pub x: Vec<usize>,
    pub y: Vec<usize>,
    pub z: Vec<usize>,
}

/// The numbers from 0 up to `n`, in order.
pub open spec fn identity(n: nat) -> Seq<usize> {
    Seq::new(n, |i: int| i as usize)
}

/// Whether `s` holds the numbers from 0 up to its length, each once: every
/// entry is below the length and none occurs twice, so that none is left
/// out either.
pub open spec fn is_permutation(s: Seq<usize>) -> bool {
    (forall|i: int| 0 <= i < s.len() ==> #[trigger] s[i] < s.len()) && s.no_duplicates()
}

/// The numbers from 0 up, put in another order, are a permutation.
pub proof fn reordered_identity_is_permutation(s: Seq<usize>)
    requires
        s.len() <= usize::MAX,
        s.to_multiset() == identity(s.len()).to_multiset(),
    ensures
        is_permutation(s),
{
    broadcast use to_multiset_contains;

    let id = identity(s.len());
    assert forall|i: int| 0 <= i < s.len() implies #[trigger] s[i] < s.len() by {
        assert(s.contains(s[i]));
        assert(s.to_multiset().count(s[i]) > 0);
        assert(id.to_multiset().count(s[i]) > 0);
        assert(id.contains(s[i]));
        let k = choose|k: int| 0 <= k < id.len() && id[k] == s[i];
        assert(id[k] == k as usize);
    }
    assert forall|i: int, j: int|
        0 <= i < id.len() && 0 <= j < id.len() && i != j implies id[i] != id[j] by {
        assert(id[i] == i && id[j] == j);
    }
    assert(id.no_duplicates());
    id.lemma_multiset_has_no_duplicates();
    s.lemma_multiset_has_no_duplicates_conv();
}

/// Whether the entries are a permutation of the numbers below their count.
pub fn holds_each_once(table: &Vec<usize>) -> (r: bool)
    ensures
        r == is_permutation(table@),
{
    let n = table.len();
    let mut seen: Vec<bool> = Vec::new();
    let mut k: usize = 0;
    while k < n
        invariant
            k <= n,
            seen@.len() == k,
            forall|x: int| 0 <= x < k ==> !(#[trigger] seen@[x]),
        decreases n - k,
    {
        seen.push(false);
        k += 1;
    }
    let mut i: usize = 0;
    while i < n
        invariant
            i <= n,
            n == table@.len(),
            seen@.len() == n,
            forall|a: int| 0 <= a < i ==> #[trigger] table@[a] < n,
            forall|a: int, b: int| 0 <= a < b < i ==> table@[a] != table@[b],
            forall|x: int|
                0 <= x < n ==> (#[trigger] seen@[x] <==> exists|a: int|
                    0 <= a < i && #[trigger] table@[a] == x),
        decreases n - i,
    {
        let x = table[i];
        if x >= n {
            return false;
        }
        if seen[x] {
            proof {
                let a = choose|a: int| 0 <= a < i && #[trigger] table@[a] == x;
                assert(table@[a] == table@[i as int] && a != i);
            }
            return false;
        }
        let ghost before = seen@;
        seen.set(x, true);
        proof {
            assert forall|y: int| 0 <= y < n implies (#[trigger] seen@[y] <==> exists|a: int|
                0 <= a < i + 1 && #[trigger] table@[a] == y) by {
                if y == x {
                    assert(table@[i as int] == y);
                } else {
                    assert(seen@[y] == before[y]);
                    if before[y] {
                        let a = choose|a: int| 0 <= a < i && #[trigger] table@[a] == y;
                        assert(0 <= a < i + 1 && table@[a] == y);
                    }
                    if exists|a: int| 0 <= a < i + 1 && #[trigger] table@[a] == y {
                        let a = choose|a: int| 0 <= a < i + 1 && #[trigger] table@[a] == y;
                        assert(a < i);
                    }
                }
            }
            assert forall|a: int, b: int| 0 <= a < b < i + 1 implies table@[a] != table@[b] by {
                if b == i && table@[a] == x {
                    assert(before[x as int]);
                }
            }
        }
        i += 1;
    }
    true
}

/// The place on an axis of length 256 of lattice coordinate `i` moved by
/// `d`: the sum, taken modulo 256.
pub open spec fn wrapped(i: i32, d: int) -> int {
    (i + d) % 256
}

/// The number of the lattice vector at a corner: the three permuted places,
/// combined bit by bit with exclusive or.
pub open spec fn corner_index(lattice: Perlin, i: i32, j: i32, k: i32, di: int, dj: int, dk: int) -> usize {
    lattice.x@[wrapped(i, di)] ^ lattice.y@[wrapped(j, dj)] ^ lattice.z@[wrapped(k, dk)]
}

/// The place on an axis of lattice coordinate `i` moved by `d`.
pub fn wrap(i: i32, d: usize) -> (r: usize)
    requires
        d <= 1,
    ensures
        r == wrapped(i, d as int),
        r < 256,
{
    let shifted: i64 = i as i64 + d as i64 + 0x8000_0000;
    (shifted % 256) as usize
}

impl Perlin {
    /// The lattice holds 256 vectors, and each axis a permutation of their
    /// numbers.
    pub open spec fn wf(self) -> bool {
        &&& self.random_points@.len() == POINT_COUNT
        &&& self.x@.len() == POINT_COUNT && is_permutation(self.x@)
        &&& self.y@.len() == POINT_COUNT && is_permutation(self.y@)
        &&& self.z@.len() == POINT_COUNT && is_permutation(self.z@)
    }

    /// The lattice vectors, each drawn by a call of `random_point`.
    pub fn perlin_generate<F: Fn() -> Vec3f<Position>>(random_point: &F) -> (r: Vec<Vec3f<Position>>)
        requires
            call_requires(*random_point, ()),
        ensures
            r@.len() == POINT_COUNT,
            forall|i: int| 0 <= i < r@.len() ==> call_ensures(*random_point, (), #[trigger] r@[i]),
    {
        let mut points: Vec<Vec3f<Position>> = Vec::with_capacity(POINT_COUNT);
        let mut i: usize = 0;
        while i < POINT_COUNT
            invariant
                i <= POINT_COUNT,
                points@.len() == i,
                call_requires(*random_point, ()),
                forall|k: int| 0 <= k < i ==> call_ensures(*random_point, (), #[trigger] points@[k]),
            decreases POINT_COUNT - i,
        {
            let point = random_point();
            points.push(point);
            i += 1;
        }
        points
    }

    /// A random permutation of the numbers from 0 up to 256.
    pub fn generate_permutation() -> (r: Vec<usize>)
        ensures
            r@.len() == POINT_COUNT,
            is_permutation(r@),
    {
        let mut points: Vec<usize> = Vec::with_capacity(POINT_COUNT);
        let mut i: usize = 0;
        while i < POINT_COUNT
            invariant
                i <= POINT_COUNT,
                points@ =~= identity(i as nat),
            decreases POINT_COUNT - i,
        {
            points.push(i);
            i += 1;
        }
        shuffle(&mut points);
        proof {
            reordered_identity_is_permutation(points@);
        }
        points
    }

    /// The lattice of the vectors and the three permutations given, where
    /// they are 256 vectors and three permutations of the numbers below
    /// 256; nothing else. For the same arguments the lattice is the same.
    pub fn with_permutations(
        random_points: Vec<Vec3f<Position>>,
        x: Vec<usize>,
        y: Vec<usize>,
        z: Vec<usize>,
    ) -> (r: Option<Self>)
        ensures
            r is Some <==> random_points@.len() == POINT_COUNT && x@.len() == POINT_COUNT && y@.len()
                == POINT_COUNT && z@.len() == POINT_COUNT && is_permutation(x@) && is_permutation(
                y@,
            ) && is_permutation(z@),
            r matches Some(lattice) ==> lattice.wf() && lattice.random_points@ == random_points@
                && lattice.x@ == x@ && lattice.y@ == y@ && lattice.z@ == z@,
    {
        if random_points.len() != POINT_COUNT || x.len() != POINT_COUNT || y.len() != POINT_COUNT
            || z.len() != POINT_COUNT {
            return None;
        }
        if !holds_each_once(&x) || !holds_each_once(&y) || !holds_each_once(&z) {
            return None;
        }
        Some(Perlin { random_points, x, y, z })
    }

    /// A lattice of vectors drawn by `random_point`, with a fresh
    /// permutation for each axis.
    pub fn new<F: Fn() -> Vec3f<Position>>(random_point: F) -> (r: Self)
        requires
            call_requires(random_point, ()),
        ensures
            r.wf(),
            forall|i: int|
                0 <= i < POINT_COUNT ==> call_ensures(random_point, (), #[trigger] r.random_points@[i]),
    {
        Perlin {
            random_points: Self::perlin_generate(&random_point),
            x: Self::generate_permutation(),
            y: Self::generate_permutation(),
            z: Self::generate_permutation(),
        }
    }

    /// The eight lattice vectors at the corners of the cell with lowest
    /// corner `(i, j, k)`: the vector first by the step along x, then along
    /// y, then along z.
    pub fn corners(&self, i: i32, j: i32, k: i32) -> (c: [[[Vec3f<Position>; 2]; 2]; 2])
        requires
            self.wf(),
        ensures
            forall|di: int, dj: int, dk: int|
                0 <= di < 2 && 0 <= dj < 2 && 0 <= dk < 2 ==> #[trigger] c@[di]@[dj]@[dk]
                    == self.random_points@[corner_index(*self, i, j, k, di, dj, dk) as int],
    {
        let c000 = self.corner(i, j, k, 0, 0, 0);
        let c001 = self.corner(i, j, k, 0, 0, 1);
        let c010 = self.corner(i, j, k, 0, 1, 0);
        let c011 = self.corner(i, j, k, 0, 1, 1);
        let c100 = self.corner(i, j, k, 1, 0, 0);
        let c101 = self.corner(i, j, k, 1, 0, 1);
        let c110 = self.corner(i, j, k, 1, 1, 0);
        let c111 = self.corner(i, j, k, 1, 1, 1);
        [[[c000, c001], [c010, c011]], [[c100, c101], [c110, c111]]]
    }

    /// The lattice vector at one corner of a cell.
    pub fn corner(&self, i: i32, j: i32, k: i32, di: usize, dj: usize, dk: usize) -> (r: Vec3f<
        Position,
    >)
        requires
            self.wf(),
            di <= 1 && dj <= 1 && dk <= 1,
        ensures
            corner_index(*self, i, j, k, di as int, dj as int, dk as int) < POINT_COUNT,
            r == self.random_points@[corner_index(*self, i, j, k, di as int, dj as int, dk as int) as int],
    {
        let px = wrap(i, di);
        let py = wrap(j, dj);
        let pz = wrap(k, dk);
        proof {
            assert(self.x@[px as int] < 256 && self.y@[py as int] < 256 && self.z@[pz as int] < 256);
        }
        let x = self.x[px];
        let y = self.y[py];
        let z = self.z[pz];
        assert(x ^ y ^ z < 256) by (bit_vector)
            requires
                x < 256,
                y < 256,
                z < 256,
        ;
        self.random_points[x ^ y ^ z]
    }
}

} // verus!
