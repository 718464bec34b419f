//! A k-d tree over 3-D fixed-point points, answering exact nearest-neighbor
//! queries.
//!
//! The tree is built by recursive median partition, alternating the
//! splitting axis with depth, so it is balanced.  A query descends the near
//! side first and prunes the far side when the squared distance to the
//! splitting plane already reaches the best squared distance found, which is
//! proved to never skip the true nearest point: `nearest_neighbor` returns
//! an index whose point minimizes the squared Euclidean distance over the
//! whole point set.

use vstd::prelude::*;
use crate::fixed::Vec3Fx;
use crate::fixed::coords_bounded;

verus! {

/// Largest coordinate magnitude a tree or a query point may have; keeps all
/// squared distances well inside `i64`.
pub const KD_COORD_LIMIT: i64 = 4194304;

/// Coordinate of `p` along `axis` (0, 1 or 2).
pub open spec fn axis_coord(p: Vec3Fx, axis: int) -> int {
    if axis == 0 {
        p.x as int
    } else if axis == 1 {
        p.y as int
    } else {
        p.z as int
    }
}

/// Squared Euclidean distance, in mathematical integers.
pub open spec fn dist_sq(a: Vec3Fx, b: Vec3Fx) -> int {
    (a.x - b.x) * (a.x - b.x) + (a.y - b.y) * (a.y - b.y) + (a.z - b.z) * (a.z - b.z)
}

struct KDNode {
    point: Vec3Fx,
    index: usize,
    left: Option<Box<KDNode>>,
    right: Option<Box<KDNode>>,
}

spec fn node_contains(n: KDNode, i: int, p: Vec3Fx) -> bool
    decreases n,
{
    ||| (n.index == i && n.point == p)
    ||| opt_contains(n.left, i, p)
    ||| opt_contains(n.right, i, p)
}

spec fn opt_contains(o: Option<Box<KDNode>>, i: int, p: Vec3Fx) -> bool
    decreases o,
{
    match o {
        Option::Some(b) => node_contains(*b, i, p),
        Option::None => false,
    }
}

spec fn node_size(n: KDNode) -> nat
    decreases n,
{
    1 + opt_size(n.left) + opt_size(n.right)
}

spec fn opt_size(o: Option<Box<KDNode>>) -> nat
    decreases o,
{
    match o {
        Option::Some(b) => node_size(*b),
        Option::None => 0,
    }
}

/// Well-formedness at a node standing at `depth`: points are bounded and the
/// two subtrees sit on the correct sides of the splitting plane.
spec fn node_wf(n: KDNode, depth: nat) -> bool
    decreases n,
{
    let axis = (depth % 3) as int;
    &&& coords_bounded(n.point, KD_COORD_LIMIT as int)
    &&& opt_wf(n.left, depth + 1)
    &&& opt_wf(n.right, depth + 1)
    &&& forall|i: int, p: Vec3Fx|
        #[trigger] opt_contains(n.left, i, p) ==> axis_coord(p, axis) <= axis_coord(n.point, axis)
    &&& forall|i: int, p: Vec3Fx|
        #[trigger] opt_contains(n.right, i, p) ==> axis_coord(p, axis) >= axis_coord(n.point, axis)
}

spec fn opt_wf(o: Option<Box<KDNode>>, depth: nat) -> bool
    decreases o,
{
    match o {
        Option::Some(b) => node_wf(*b, depth),
        Option::None => true,
    }
}

/// A k-d tree over the point sequence it was built from.
pub struct KDTree3D {
    root: Option<Box<KDNode>>,
    pts: Ghost<Seq<Vec3Fx>>,
}

impl KDTree3D {
    /// The point set the tree indexes.
    pub closed spec fn points(self) -> Seq<Vec3Fx> {
        self.pts@
    }

    /// The tree partitions correctly and holds exactly the pairs
    /// `(i, points[i])`.
    pub closed spec fn wf(self) -> bool {
        &&& opt_wf(self.root, 0)
        &&& opt_size(self.root) == self.pts@.len()
        &&& self.pts@.len() < 0x1000_0000
        &&& forall|i: int, p: Vec3Fx|
            #[trigger] opt_contains(self.root, i, p) ==> 0 <= i < self.pts@.len() && self.pts@[i]
                == p
        &&& forall|i: int|
            0 <= i < self.pts@.len() ==> opt_contains(self.root, i, #[trigger] self.pts@[i])
    }

    /// Build the tree over the given points by recursive median partition
    /// along alternating axes.
    pub fn new(points: &Vec<Vec3Fx>) -> (t: KDTree3D)
        requires
            points@.len() < 0x1000_0000,
            forall|i: int|
                0 <= i < points@.len() ==> coords_bounded(
                    #[trigger] points@[i],
                    KD_COORD_LIMIT as int,
                ),
        ensures
            t.wf(),
            t.points() == points@,
    {
        let n = points.len();
        let mut items: Vec<(usize, Vec3Fx)> = Vec::new();
        let mut k: usize = 0;
        while k < n
            invariant
                k <= n,
                n == points@.len(),
                n < 0x1000_0000,
                forall|i: int|
                    0 <= i < points@.len() ==> coords_bounded(
                        #[trigger] points@[i],
                        KD_COORD_LIMIT as int,
                    ),
                items@.len() == k,
                forall|j: int| 0 <= j < k ==> #[trigger] items@[j] == (j as usize, points@[j]),
            decreases n - k,
        {
            items.push((k, points[k]));
            k += 1;
        }
        proof {
            assert forall|j: int| 0 <= j < items@.len() implies coords_bounded(
                (#[trigger] items@[j]).1,
                KD_COORD_LIMIT as int,
            ) && 0 <= items@[j].0 < points@.len() by {
                assert(items@[j] == (j as usize, points@[j]));
            }
        }
        let ghost items0 = items@;
        let root = build_range(items, 0);
        proof {
            assert forall|i: int, p: Vec3Fx| #[trigger] opt_contains(root, i, p) implies 0 <= i
                < points@.len() && points@[i] == p by {
                assert(pair_in(items0, i, p));
                let kk = choose|kk: int|
                    0 <= kk < items0.len() && (#[trigger] items0[kk]).0 == i && items0[kk].1 == p;
                assert(items0[kk] == (kk as usize, points@[kk]));
            }
            assert forall|i: int| 0 <= i < points@.len() implies opt_contains(
                root,
                i,
                #[trigger] points@[i],
            ) by {
                assert(items0[i] == (i as usize, points@[i]));
                assert(pair_in(items0, i, points@[i]));
            }
        }
        KDTree3D { root, pts: Ghost(points@) }
    }

    /// The index of a point at the smallest squared Euclidean distance from
    /// `target`, over all indexed points; `0` for an empty tree.
    pub fn nearest_neighbor(&self, target: Vec3Fx) -> (r: usize)
        requires
            self.wf(),
            coords_bounded(target, KD_COORD_LIMIT as int),
        ensures
            self.points().len() == 0 ==> r == 0,
            self.points().len() > 0 ==> (r as int) < self.points().len() && forall|j: int|
                0 <= j < self.points().len() ==> dist_sq(self.points()[r as int], target)
                    <= dist_sq(#[trigger] self.points()[j], target),
    {
        match &self.root {
            Some(_) => {
                let mut best_index: usize = 0;
                let mut best_dist: i64 = i64::MAX;
                nearest_opt(
                    &self.root,
                    target,
                    0,
                    &mut best_index,
                    &mut best_dist,
                    Ghost(self.pts@),
                );
                proof {
                    assert forall|j: int| 0 <= j < self.pts@.len() implies dist_sq(
                        self.pts@[best_index as int],
                        target,
                    ) <= dist_sq(#[trigger] self.pts@[j], target) by {
                        assert(opt_contains(self.root, j, self.pts@[j]));
                    }
                }
                best_index
            },
            None => {
                proof {
                    if self.pts@.len() > 0 {
                        assert(opt_contains(self.root, 0, self.pts@[0int]));
                        assert(false);
                    }
                }
                0
            },
        }
    }
}

fn axis_val(p: Vec3Fx, axis: usize) -> (r: i64)
    requires
        axis < 3,
    ensures
        r as int == axis_coord(p, axis as int),
{
    if axis == 0 {
        p.x
    } else if axis == 1 {
        p.y
    } else {
        p.z
    }
}

/// The pair `(i, p)` occurs in the working list.
pub open spec fn pair_in(s: Seq<(usize, Vec3Fx)>, i: int, p: Vec3Fx) -> bool {
    exists|k: int| 0 <= k < s.len() && (#[trigger] s[k]).0 == i && s[k].1 == p
}

/// Selection sort of the working list by the coordinate along `axis`;
/// keeps exactly the same pairs.
fn sort_by_axis(items: &mut Vec<(usize, Vec3Fx)>, axis: usize)
    requires
        axis < 3,
    ensures
        final(items)@.len() == old(items)@.len(),
        forall|a: int, b: int|
            0 <= a < b < final(items)@.len() ==> axis_coord(
                (#[trigger] final(items)@[a]).1,
                axis as int,
            ) <= axis_coord((#[trigger] final(items)@[b]).1, axis as int),
        forall|i: int, p: Vec3Fx|
            #[trigger] pair_in(final(items)@, i, p) <==> pair_in(old(items)@, i, p),
{
    let n = items.len();
    let mut i: usize = 0;
    while i < n
        invariant
            i <= n,
            axis < 3,
            items@.len() == n,
            forall|a: int, b: int|
                0 <= a < b < i ==> axis_coord((#[trigger] items@[a]).1, axis as int) <= axis_coord(
                    (#[trigger] items@[b]).1,
                    axis as int,
                ),
            forall|a: int, b: int|
                0 <= a < i && i <= b < n ==> axis_coord((#[trigger] items@[a]).1, axis as int)
                    <= axis_coord((#[trigger] items@[b]).1, axis as int),
            forall|ii: int, p: Vec3Fx|
                #[trigger] pair_in(items@, ii, p) <==> pair_in(old(items)@, ii, p),
        decreases n - i,
    {
        let mut m: usize = i;
        let mut j: usize = i + 1;
        while j < n
            invariant
                i <= m < n,
                i < j <= n,
                items@.len() == n,
                axis < 3,
                forall|b: int|
                    i <= b < j ==> axis_coord((#[trigger] items@[m as int]).1, axis as int)
                        <= axis_coord(items@[b].1, axis as int),
            decreases n - j,
        {
            if axis_val(items[j].1, axis) < axis_val(items[m].1, axis) {
                m = j;
            }
            j += 1;
        }
        let ghost pre = items@;
        let a = items[i];
        let b = items[m];
        items[i] = b;
        items[m] = a;
        proof {
            assert(items@ =~= pre.update(i as int, pre[m as int]).update(m as int, pre[i as int]));
            assert forall|ii: int, p: Vec3Fx| #[trigger] pair_in(items@, ii, p) <==> pair_in(
                pre,
                ii,
                p,
            ) by {
                if pair_in(items@, ii, p) {
                    let k = choose|k: int|
                        0 <= k < items@.len() && (#[trigger] items@[k]).0 == ii && items@[k].1 == p;
                    if k == i {
                        assert(pre[m as int].0 == ii && pre[m as int].1 == p);
                    } else if k == m {
                        assert(pre[i as int].0 == ii && pre[i as int].1 == p);
                    } else {
                        assert(pre[k].0 == ii && pre[k].1 == p);
                    }
                    assert(pair_in(pre, ii, p));
                }
                if pair_in(pre, ii, p) {
                    let k = choose|k: int|
                        0 <= k < pre.len() && (#[trigger] pre[k]).0 == ii && pre[k].1 == p;
                    if k == i {
                        assert(items@[m as int].0 == ii && items@[m as int].1 == p);
                    } else if k == m {
                        assert(items@[i as int].0 == ii && items@[i as int].1 == p);
                    } else {
                        assert(items@[k].0 == ii && items@[k].1 == p);
                    }
                    assert(pair_in(items@, ii, p));
                }
            }
        }
        i += 1;
    }
}

/// Copy the subrange `[lo, hi)` of the working list.
fn copy_range(items: &Vec<(usize, Vec3Fx)>, lo: usize, hi: usize) -> (r: Vec<(usize, Vec3Fx)>)
    requires
        lo <= hi <= items@.len(),
    ensures
        r@ == items@.subrange(lo as int, hi as int),
{
    let mut r: Vec<(usize, Vec3Fx)> = Vec::new();
    let mut k: usize = lo;
    while k < hi
        invariant
            lo <= k <= hi <= items@.len(),
            r@ == items@.subrange(lo as int, k as int),
        decreases hi - k,
    {
        let ghost pre = r@;
        r.push(items[k]);
        proof {
            assert(r@ =~= items@.subrange(lo as int, k as int + 1));
        }
        k += 1;
    }
    r
}

/// Build the subtree standing at `depth` over the working list: sort by the
/// level's axis, put the median at the node, and recurse on the two halves.
fn build_range(items: Vec<(usize, Vec3Fx)>, depth: usize) -> (r: Option<Box<KDNode>>)
    requires
        depth + items@.len() < 0x1000_0000,
        forall|j: int|
            0 <= j < items@.len() ==> coords_bounded(
                (#[trigger] items@[j]).1,
                KD_COORD_LIMIT as int,
            ),
    ensures
        opt_wf(r, depth as nat),
        opt_size(r) == items@.len(),
        forall|i: int, p: Vec3Fx| #[trigger] opt_contains(r, i, p) <==> pair_in(items@, i, p),
    decreases items@.len(),
{
    if items.len() == 0 {
        proof {
            assert forall|i: int, p: Vec3Fx| !(#[trigger] pair_in(items@, i, p)) by {}
        }
        return None;
    }
    let mut items = items;
    let ghost orig_items = items@;
    let axis = depth % 3;
    sort_by_axis(&mut items, axis);
    let ghost sorted = items@;
    proof {
        assert forall|j: int| 0 <= j < sorted.len() implies coords_bounded(
            (#[trigger] sorted[j]).1,
            KD_COORD_LIMIT as int,
        ) by {
            assert(pair_in(sorted, sorted[j].0 as int, sorted[j].1));
            assert(pair_in(orig_items, sorted[j].0 as int, sorted[j].1));
            let k = choose|k: int|
                0 <= k < orig_items.len() && (#[trigger] orig_items[k]).0 == sorted[j].0 as int
                    && orig_items[k].1 == sorted[j].1;
            assert(coords_bounded(orig_items[k].1, KD_COORD_LIMIT as int));
        }
    }
    let m = items.len() / 2;
    let med = items[m];
    let left_items = copy_range(&items, 0, m);
    let right_items = copy_range(&items, m + 1, items.len());
    proof {
        assert forall|j: int| 0 <= j < left_items@.len() implies coords_bounded(
            (#[trigger] left_items@[j]).1,
            KD_COORD_LIMIT as int,
        ) by {
            assert(left_items@[j] == sorted.subrange(0, m as int)[j]);
            assert(left_items@[j] == sorted[j]);
            assert(coords_bounded(sorted[j].1, KD_COORD_LIMIT as int));
        }
        assert forall|j: int| 0 <= j < right_items@.len() implies coords_bounded(
            (#[trigger] right_items@[j]).1,
            KD_COORD_LIMIT as int,
        ) by {
            assert(right_items@[j] == sorted.subrange(m as int + 1, sorted.len() as int)[j]);
            assert(right_items@[j] == sorted[m as int + 1 + j]);
            assert(coords_bounded(sorted[m as int + 1 + j].1, KD_COORD_LIMIT as int));
        }
    }
    let ghost lseq = left_items@;
    let ghost rseq = right_items@;
    let left = build_range(left_items, depth + 1);
    let right = build_range(right_items, depth + 1);
    let node = KDNode { point: med.1, index: med.0, left, right };
    proof {
        let ax = (depth % 3) as int;
        assert forall|i: int, p: Vec3Fx| #[trigger] opt_contains(node.left, i, p) implies
            axis_coord(p, ax) <= axis_coord(node.point, ax) by {
            assert(pair_in(lseq, i, p));
            let k = choose|k: int| 0 <= k < lseq.len() && (#[trigger] lseq[k]).0 == i && lseq[k].1
                == p;
            assert(lseq[k] == sorted.subrange(0, m as int)[k]);
            assert(lseq[k] == sorted[k]);
            assert(axis_coord(sorted[k].1, ax) <= axis_coord(sorted[m as int].1, ax));
        }
        assert forall|i: int, p: Vec3Fx| #[trigger] opt_contains(node.right, i, p) implies
            axis_coord(p, ax) >= axis_coord(node.point, ax) by {
            assert(pair_in(rseq, i, p));
            let k = choose|k: int| 0 <= k < rseq.len() && (#[trigger] rseq[k]).0 == i && rseq[k].1
                == p;
            assert(rseq[k] == sorted.subrange(m as int + 1, sorted.len() as int)[k]);
            assert(rseq[k] == sorted[m as int + 1 + k]);
            assert(axis_coord(sorted[m as int].1, ax) <= axis_coord(sorted[m as int + 1 + k].1, ax));
        }
        assert(node_wf(node, depth as nat));
    }
    let r = Some(Box::new(node));
    proof {
        assert forall|i: int, p: Vec3Fx| #[trigger] opt_contains(r, i, p) <==> pair_in(
            items@,
            i,
            p,
        ) by {
            assert(opt_contains(r, i, p) == node_contains(node, i, p));
            if opt_contains(r, i, p) {
                if node.index == i && node.point == p {
                    assert(sorted[m as int].0 == i && sorted[m as int].1 == p);
                    assert(pair_in(sorted, i, p));
                } else if opt_contains(node.left, i, p) {
                    assert(pair_in(lseq, i, p));
                    let k = choose|k: int|
                        0 <= k < lseq.len() && (#[trigger] lseq[k]).0 == i && lseq[k].1 == p;
                    assert(lseq[k] == sorted.subrange(0, m as int)[k]);
                    assert(sorted[k].0 == i && sorted[k].1 == p);
                    assert(pair_in(sorted, i, p));
                } else {
                    assert(opt_contains(node.right, i, p));
                    assert(pair_in(rseq, i, p));
                    let k = choose|k: int|
                        0 <= k < rseq.len() && (#[trigger] rseq[k]).0 == i && rseq[k].1 == p;
                    assert(rseq[k] == sorted.subrange(m as int + 1, sorted.len() as int)[k]);
                    assert(sorted[m as int + 1 + k].0 == i && sorted[m as int + 1 + k].1 == p);
                    assert(pair_in(sorted, i, p));
                }
            }
            if pair_in(sorted, i, p) {
                let k = choose|k: int|
                    0 <= k < sorted.len() && (#[trigger] sorted[k]).0 == i && sorted[k].1 == p;
                if k < m {
                    assert(lseq[k] == sorted.subrange(0, m as int)[k]);
                    assert(lseq[k].0 == i && lseq[k].1 == p);
                    assert(pair_in(lseq, i, p));
                    assert(opt_contains(node.left, i, p));
                } else if k == m {
                    assert(node.index == i && node.point == p);
                } else {
                    assert(rseq[k - m - 1] == sorted.subrange(m as int + 1, sorted.len() as int)[k
                        - m - 1]);
                    assert(rseq[k - m - 1].0 == i && rseq[k - m - 1].1 == p);
                    assert(pair_in(rseq, i, p));
                    assert(opt_contains(node.right, i, p));
                }
                assert(node_contains(node, i, p));
            }
        }
    }
    r
}

/// The squared distance is nonnegative, and zero from a point to itself.
pub proof fn lemma_dist_sq_nonneg(a: Vec3Fx, b: Vec3Fx)
    ensures
        dist_sq(a, b) >= 0,
        dist_sq(a, a) == 0,
{
    lemma_sq_nonneg(a.x - b.x);
    lemma_sq_nonneg(a.y - b.y);
    lemma_sq_nonneg(a.z - b.z);
}

proof fn lemma_sq_nonneg(a: int)
    by (nonlinear_arith)
    ensures
        a * a >= 0,
{
}

/// Pruning argument: when the query and a point sit on opposite sides of the
/// splitting plane, the squared plane distance bounds the squared point
/// distance from below.
proof fn lemma_axis_prune(t: Vec3Fx, p: Vec3Fx, nc: int, axis: int, diff: int)
    requires
        0 <= axis < 3,
        diff == axis_coord(t, axis) - nc,
        // p is beyond the plane, on the far side from t
        diff < 0 ==> axis_coord(p, axis) >= nc,
        diff >= 0 ==> axis_coord(p, axis) <= nc,
    ensures
        dist_sq(p, t) >= diff * diff,
{
    let ta = axis_coord(t, axis);
    let pa = axis_coord(p, axis);
    assert((pa - ta) * (pa - ta) >= diff * diff) by (nonlinear_arith)
        requires
            diff == ta - nc,
            diff < 0 ==> pa >= nc,
            diff >= 0 ==> pa <= nc,
    ;
    lemma_sq_nonneg(p.x - t.x);
    lemma_sq_nonneg(p.y - t.y);
    lemma_sq_nonneg(p.z - t.z);
    if axis == 0 {
        assert((p.x - t.x) * (p.x - t.x) == (pa - ta) * (pa - ta)) by (nonlinear_arith)
            requires
                pa == p.x as int && ta == t.x as int,
        ;
    } else if axis == 1 {
        assert((p.y - t.y) * (p.y - t.y) == (pa - ta) * (pa - ta)) by (nonlinear_arith)
            requires
                pa == p.y as int && ta == t.y as int,
        ;
    } else {
        assert((p.z - t.z) * (p.z - t.z) == (pa - ta) * (pa - ta)) by (nonlinear_arith)
            requires
                pa == p.z as int && ta == t.z as int,
        ;
    }
}

/// Exec squared distance between bounded points.
fn dist_sq_exec(a: Vec3Fx, b: Vec3Fx) -> (r: i64)
    requires
        coords_bounded(a, KD_COORD_LIMIT as int),
        coords_bounded(b, KD_COORD_LIMIT as int),
    ensures
        r as int == dist_sq(a, b),
        0 <= r < i64::MAX,
{
    proof {
        assert((a.x - b.x) * (a.x - b.x) >= 0 && (a.x - b.x) * (a.x - b.x)
            <= 0x4000_0000_0000_0000) by (nonlinear_arith)
            requires
                -0x80_0000 <= a.x - b.x <= 0x80_0000;
        assert((a.y - b.y) * (a.y - b.y) >= 0 && (a.y - b.y) * (a.y - b.y)
            <= 0x4000_0000_0000_0000) by (nonlinear_arith)
            requires
                -0x80_0000 <= a.y - b.y <= 0x80_0000;
        assert((a.z - b.z) * (a.z - b.z) >= 0 && (a.z - b.z) * (a.z - b.z)
            <= 0x4000_0000_0000_0000) by (nonlinear_arith)
            requires
                -0x80_0000 <= a.z - b.z <= 0x80_0000;
        assert(0x80_0000 * 0x80_0000 <= 0x4000_0000_0000_0000) by (nonlinear_arith);
        assert((a.x - b.x) * (a.x - b.x) <= 0x80_0000 * 0x80_0000) by (nonlinear_arith)
            requires
                -0x80_0000 <= a.x - b.x <= 0x80_0000;
        assert((a.y - b.y) * (a.y - b.y) <= 0x80_0000 * 0x80_0000) by (nonlinear_arith)
            requires
                -0x80_0000 <= a.y - b.y <= 0x80_0000;
        assert((a.z - b.z) * (a.z - b.z) <= 0x80_0000 * 0x80_0000) by (nonlinear_arith)
            requires
                -0x80_0000 <= a.z - b.z <= 0x80_0000;
    }
    let dx = a.x - b.x;
    let dy = a.y - b.y;
    let dz = a.z - b.z;
    dx * dx + dy * dy + dz * dz
}

/// Recursive nearest-neighbor search under `node`, improving the running
/// best index and squared distance.
/// Nearest-neighbor search in the subtree standing at `depth`, improving
/// the running best index and squared distance.
fn nearest_opt(
    o: &Option<Box<KDNode>>,
    target: Vec3Fx,
    depth: usize,
    best_index: &mut usize,
    best_dist: &mut i64,
    Ghost(pts): Ghost<Seq<Vec3Fx>>,
)
    requires
        opt_wf(*o, depth as nat),
        coords_bounded(target, KD_COORD_LIMIT as int),
        depth + opt_size(*o) < 0x1000_0000,
        forall|i: int, p: Vec3Fx|
            #[trigger] opt_contains(*o, i, p) ==> 0 <= i < pts.len() && pts[i] == p,
        *old(best_dist) == i64::MAX || ((*old(best_index) as int) < pts.len() && dist_sq(
            pts[*old(best_index) as int],
            target,
        ) == *old(best_dist) as int && *old(best_dist) >= 0),
    ensures
        *final(best_dist) <= *old(best_dist),
        *final(best_dist) == i64::MAX || ((*final(best_index) as int) < pts.len() && dist_sq(
            pts[*final(best_index) as int],
            target,
        ) == (*final(best_dist)) as int && *final(best_dist) >= 0),
        forall|i: int, p: Vec3Fx|
            #[trigger] opt_contains(*o, i, p) ==> dist_sq(p, target)
                >= (*final(best_dist)) as int,
        (*o) is Some ==> *final(best_dist) < i64::MAX,
    decreases *o,
{
    match o {
        Some(b) => {
            let node: &KDNode = b;
            proof {
                assert forall|i: int, p: Vec3Fx| #[trigger] node_contains(*node, i, p) implies 0
                    <= i < pts.len() && pts[i] == p by {
                    assert(opt_contains(*o, i, p));
                }
                assert(node_contains(*node, node.index as int, node.point));
                assert forall|i: int, p: Vec3Fx| #[trigger] opt_contains(
                    node.left,
                    i,
                    p,
                ) implies 0 <= i < pts.len() && pts[i] == p by {
                    assert(node_contains(*node, i, p));
                }
                assert forall|i: int, p: Vec3Fx| #[trigger] opt_contains(
                    node.right,
                    i,
                    p,
                ) implies 0 <= i < pts.len() && pts[i] == p by {
                    assert(node_contains(*node, i, p));
                }
            }
            let d = dist_sq_exec(node.point, target);
            if d < *best_dist {
                *best_dist = d;
                *best_index = node.index;
            }
            let ghost best_after_node = *best_dist;
            let axis = depth % 3;
            let diff = axis_val(target, axis) - axis_val(node.point, axis);
            proof {
                assert(0 <= diff * diff <= 0x4000_0000_0000_0000) by (nonlinear_arith)
                    requires
                        -0x100_0000 <= diff <= 0x100_0000;
            }
            if diff < 0 {
                nearest_opt(&node.left, target, depth + 1, best_index, best_dist, Ghost(pts));
                let ghost best_mid = *best_dist;
                if diff * diff < *best_dist {
                    nearest_opt(&node.right, target, depth + 1, best_index, best_dist, Ghost(pts));
                } else {
                    proof {
                        assert forall|i: int, p: Vec3Fx| #[trigger] opt_contains(
                            node.right,
                            i,
                            p,
                        ) implies dist_sq(p, target) >= (*best_dist) as int by {
                            lemma_axis_prune(
                                target,
                                p,
                                axis_coord(node.point, axis as int),
                                axis as int,
                                diff as int,
                            );
                        }
                    }
                }
            } else {
                nearest_opt(&node.right, target, depth + 1, best_index, best_dist, Ghost(pts));
                let ghost best_mid = *best_dist;
                if diff * diff < *best_dist {
                    nearest_opt(&node.left, target, depth + 1, best_index, best_dist, Ghost(pts));
                } else {
                    proof {
                        assert forall|i: int, p: Vec3Fx| #[trigger] opt_contains(
                            node.left,
                            i,
                            p,
                        ) implies dist_sq(p, target) >= (*best_dist) as int by {
                            lemma_axis_prune(
                                target,
                                p,
                                axis_coord(node.point, axis as int),
                                axis as int,
                                diff as int,
                            );
                        }
                    }
                }
            }
            proof {
                assert forall|i: int, p: Vec3Fx| #[trigger] opt_contains(*o, i, p) implies dist_sq(
                    p,
                    target,
                ) >= (*best_dist) as int by {
                    assert(node_contains(*node, i, p));
                    if i == node.index as int && p == node.point {
                        assert(dist_sq(p, target) == d as int);
                    } else if opt_contains(node.left, i, p) {
                    } else {
                        assert(opt_contains(node.right, i, p));
                    }
                }
            }
        },
        None => {},
    }
}

} // verus!
