//! Icosphere generation: a regular icosahedron subdivided onto the unit
//! sphere.
//!
//! The mesh keeps, besides the vertex positions and the triangle index list,
//! the list of distinct undirected edges of the triangulation.  Midpoint
//! vertices are created once per edge-list entry, and triangles find their
//! midpoints through a cache keyed by the packed endpoint pair, so a shared
//! edge of two adjacent triangles yields exactly one new vertex.  This also
//! makes the counts exact by construction: one subdivision round turns
//! `V` vertices, `E` edges and `T` triangles into `V + E`, `2E + 3T` and
//! `4T`, which closes to `10*4^n + 2` vertices, `30*4^n` edges and `20*4^n`
//! triangles at subdivision level `n`.

use vstd::prelude::*;
use std::collections::HashMap;
use crate::fixed::Vec3Fx;
use crate::fixed::normalize;
use crate::fixed::on_unit_sphere;
use crate::fixed::coords_bounded;
use crate::fixed::UNIT;

verus! {

broadcast use vstd::std_specs::hash::group_hash_axioms;

/// `4^n`.
pub open spec fn pow4(n: nat) -> nat
    decreases n,
{
    if n == 0 {
        1
    } else {
        4 * pow4((n - 1) as nat)
    }
}

/// Number of vertices of an icosphere at subdivision level `n`.
pub open spec fn vertex_count_spec(n: nat) -> nat {
    10 * pow4(n) + 2
}

/// Number of index entries (three per triangle) at subdivision level `n`.
pub open spec fn index_count_spec(n: nat) -> nat {
    60 * pow4(n)
}

/// Number of distinct undirected edges at subdivision level `n`.
pub open spec fn edge_count_spec(n: nat) -> nat {
    30 * pow4(n)
}

pub proof fn lemma_pow4_monotone(i: nat, j: nat)
    requires
        i <= j,
    ensures
        pow4(i) <= pow4(j),
    decreases j,
{
    if i < j {
        lemma_pow4_monotone(i, (j - 1) as nat);
    }
}

/// The undirected edge `{a, b}` written with its smaller endpoint first.
pub open spec fn epair(a: u32, b: u32) -> (u32, u32) {
    if a < b {
        (a, b)
    } else {
        (b, a)
    }
}

/// The edge `{a, b}` occurs in the edge list.
pub open spec fn edge_in(es: Seq<(u32, u32)>, a: u32, b: u32) -> bool {
    exists|j: int| 0 <= j < es.len() && (#[trigger] es[j]) == epair(a, b)
}

/// All three edges of triangle `t` of the index list occur in the edge list.
pub open spec fn tri_edges_in(es: Seq<(u32, u32)>, ix: Seq<u32>, t: int) -> bool {
    &&& edge_in(es, ix[3 * t], ix[3 * t + 1])
    &&& edge_in(es, ix[3 * t + 1], ix[3 * t + 2])
    &&& edge_in(es, ix[3 * t + 2], ix[3 * t])
}

/// Every edge entry is an ordered pair of distinct vertex ids below `vcount`.
pub open spec fn edges_bounded(es: Seq<(u32, u32)>, vcount: int) -> bool {
    forall|j: int|
        0 <= j < es.len() ==> ((#[trigger] es[j]).0 < es[j].1 && (es[j].1 as int) < vcount)
}

/// Every index entry refers to a vertex below `vcount`.
pub open spec fn indices_bounded(ix: Seq<u32>, vcount: int) -> bool {
    forall|i: int| 0 <= i < ix.len() ==> ((#[trigger] ix[i]) as int) < vcount
}

/// Every triangle of the index list has its three edges in the edge list.
pub open spec fn tris_covered(es: Seq<(u32, u32)>, ix: Seq<u32>) -> bool {
    forall|t: int| 0 <= t < ix.len() / 3 ==> #[trigger] tri_edges_in(es, ix, t)
}

/// Every vertex lies on the unit sphere with coordinates bounded by `UNIT`.
pub open spec fn vertices_on_sphere(vs: Seq<Vec3Fx>) -> bool {
    forall|i: int|
        0 <= i < vs.len() ==> on_unit_sphere(#[trigger] vs[i]) && coords_bounded(vs[i], UNIT as int)
}

/// The first `2*k` entries of `es` are the half-edge pairs of the first `k`
/// entries of `orig`: each original endpoint paired with the id of the
/// midpoint vertex created for that edge (`vbase + j` for edge `j`).
pub open spec fn half_edges_laid(
    es: Seq<(u32, u32)>,
    orig: Seq<(u32, u32)>,
    vbase: u32,
    k: int,
) -> bool {
    forall|j: int|
        0 <= j < k ==> {
            &&& (#[trigger] es[2 * j]).0 == orig[j].0
            &&& es[2 * j].1 as int == vbase + j
            &&& es[2 * j + 1].0 == orig[j].1
            &&& es[2 * j + 1].1 as int == vbase + j
        }
}

proof fn lemma_edge_in_prefix(es1: Seq<(u32, u32)>, es2: Seq<(u32, u32)>, a: u32, b: u32)
    requires
        edge_in(es1, a, b),
        es1.is_prefix_of(es2),
    ensures
        edge_in(es2, a, b),
{
    let j = choose|j: int| 0 <= j < es1.len() && (#[trigger] es1[j]) == epair(a, b);
    assert(es2[j] == epair(a, b));
}

proof fn lemma_tris_covered_extend(
    es1: Seq<(u32, u32)>,
    es2: Seq<(u32, u32)>,
    ix1: Seq<u32>,
    ix2: Seq<u32>,
)
    requires
        tris_covered(es1, ix1),
        es1.is_prefix_of(es2),
        ix1.is_prefix_of(ix2),
        ix1.len() % 3 == 0,
    ensures
        forall|t: int| 0 <= t < ix1.len() / 3 ==> #[trigger] tri_edges_in(es2, ix2, t),
{
    assert forall|t: int| 0 <= t < ix1.len() / 3 implies #[trigger] tri_edges_in(es2, ix2, t) by {
        assert(tri_edges_in(es1, ix1, t));
        assert(ix2[3 * t] == ix1[3 * t]);
        assert(ix2[3 * t + 1] == ix1[3 * t + 1]);
        assert(ix2[3 * t + 2] == ix1[3 * t + 2]);
        lemma_edge_in_prefix(es1, es2, ix1[3 * t], ix1[3 * t + 1]);
        lemma_edge_in_prefix(es1, es2, ix1[3 * t + 1], ix1[3 * t + 2]);
        lemma_edge_in_prefix(es1, es2, ix1[3 * t + 2], ix1[3 * t]);
    }
}

/// The twelve raw corner directions of the regular icosahedron: cyclic
/// permutations of `(+-1, +-phi, 0)` scaled to fixed point, in the order the
/// base mesh uses.
pub open spec fn base_corners() -> Seq<Vec3Fx> {
    seq![
        Vec3Fx { x: -65536i64, y: 106039i64, z: 0i64 },
        Vec3Fx { x: 65536i64, y: 106039i64, z: 0i64 },
        Vec3Fx { x: -65536i64, y: -106039i64, z: 0i64 },
        Vec3Fx { x: 65536i64, y: -106039i64, z: 0i64 },
        Vec3Fx { x: 0i64, y: -65536i64, z: 106039i64 },
        Vec3Fx { x: 0i64, y: 65536i64, z: 106039i64 },
        Vec3Fx { x: 0i64, y: -65536i64, z: -106039i64 },
        Vec3Fx { x: 0i64, y: 65536i64, z: -106039i64 },
        Vec3Fx { x: 106039i64, y: 0i64, z: -65536i64 },
        Vec3Fx { x: 106039i64, y: 0i64, z: 65536i64 },
        Vec3Fx { x: -106039i64, y: 0i64, z: -65536i64 },
        Vec3Fx { x: -106039i64, y: 0i64, z: 65536i64 },
    ]
}

/// The fixed sixty-entry face table of the base icosahedron.
pub open spec fn base_faces() -> Seq<u32> {
    seq![
        0u32, 11u32, 5u32, 0u32, 5u32, 1u32, 0u32, 1u32, 7u32, 0u32, 7u32, 10u32, 0u32, 10u32,
        11u32, 1u32, 5u32, 9u32, 5u32, 11u32, 4u32, 11u32, 10u32, 2u32, 10u32, 7u32, 6u32,
        7u32, 1u32, 8u32, 3u32, 9u32, 4u32, 3u32, 4u32, 2u32, 3u32, 2u32, 6u32, 3u32, 6u32,
        8u32, 3u32, 8u32, 9u32, 4u32, 9u32, 5u32, 2u32, 4u32, 11u32, 6u32, 2u32, 10u32, 8u32,
        6u32, 7u32, 9u32, 8u32, 1u32,
    ]
}

/// The thirty distinct undirected edges of the base icosahedron.
pub open spec fn base_edge_list() -> Seq<(u32, u32)> {
    seq![
        (0u32, 11u32), (5u32, 11u32), (0u32, 5u32), (1u32, 5u32), (0u32, 1u32),
        (1u32, 7u32), (0u32, 7u32), (7u32, 10u32), (0u32, 10u32), (10u32, 11u32),
        (5u32, 9u32), (1u32, 9u32), (4u32, 11u32), (4u32, 5u32), (2u32, 10u32),
        (2u32, 11u32), (6u32, 7u32), (6u32, 10u32), (1u32, 8u32), (7u32, 8u32),
        (3u32, 9u32), (4u32, 9u32), (3u32, 4u32), (2u32, 4u32), (2u32, 3u32),
        (2u32, 6u32), (3u32, 6u32), (6u32, 8u32), (3u32, 8u32), (8u32, 9u32),
    ]
}

/// The index of the last edge-list entry equal to `pr`, or `-1` when there
/// is none; the midpoint cache keeps the last insertion for a key, so this
/// names the midpoint each triangle edge resolves to.
pub open spec fn last_edge_index(es: Seq<(u32, u32)>, pr: (u32, u32)) -> int
    decreases es.len(),
{
    if es.len() == 0 {
        -1
    } else if es.last() == pr {
        es.len() - 1
    } else {
        last_edge_index(es.drop_last(), pr)
    }
}

proof fn lemma_last_edge_index_push(es: Seq<(u32, u32)>, e: (u32, u32), pr: (u32, u32))
    ensures
        last_edge_index(es.push(e), pr) == if e == pr {
            es.len() as int
        } else {
            last_edge_index(es, pr)
        },
{
    assert(es.push(e).drop_last() =~= es);
    assert(es.push(e).last() == e);
}

proof fn lemma_last_edge_index_in_range(es: Seq<(u32, u32)>, pr: (u32, u32))
    requires
        exists|j: int| 0 <= j < es.len() && (#[trigger] es[j]) == pr,
    ensures
        0 <= last_edge_index(es, pr) < es.len(),
        es[last_edge_index(es, pr)] == pr,
    decreases es.len(),
{
    if es.last() == pr {
    } else {
        let j = choose|j: int| 0 <= j < es.len() && (#[trigger] es[j]) == pr;
        assert(es.drop_last()[j] == pr);
        lemma_last_edge_index_in_range(es.drop_last(), pr);
    }
}

/// The midpoint vertex id that the cache resolves the edge `{a, b}` to.
pub open spec fn mid_of(es: Seq<(u32, u32)>, vbase: int, a: u32, b: u32) -> int {
    vbase + last_edge_index(es, epair(a, b))
}

/// The twelve index entries that replace triangle `t`: three corner
/// triangles and the center triangle over the three edge midpoints.
pub open spec fn sub_tri_indices(ix: Seq<u32>, es: Seq<(u32, u32)>, vbase: int, t: int) -> Seq<
    u32,
> {
    let v1 = ix[3 * t];
    let v2 = ix[3 * t + 1];
    let v3 = ix[3 * t + 2];
    let ma = mid_of(es, vbase, v1, v2) as u32;
    let mb = mid_of(es, vbase, v2, v3) as u32;
    let mc = mid_of(es, vbase, v3, v1) as u32;
    seq![v1, ma, mc, v2, mb, ma, v3, mc, mb, ma, mb, mc]
}

/// The index list of the first `t` subdivided triangles.
pub open spec fn sub_indices_upto(ix: Seq<u32>, es: Seq<(u32, u32)>, vbase: int, t: int) -> Seq<
    u32,
>
    decreases t,
{
    if t <= 0 {
        Seq::empty()
    } else {
        sub_indices_upto(ix, es, vbase, t - 1) + sub_tri_indices(ix, es, vbase, t - 1)
    }
}

/// The three center edges of subdivided triangle `t`.
pub open spec fn sub_center_edges(ix: Seq<u32>, es: Seq<(u32, u32)>, vbase: int, t: int) -> Seq<
    (u32, u32),
> {
    let v1 = ix[3 * t];
    let v2 = ix[3 * t + 1];
    let v3 = ix[3 * t + 2];
    let ma = mid_of(es, vbase, v1, v2) as u32;
    let mb = mid_of(es, vbase, v2, v3) as u32;
    let mc = mid_of(es, vbase, v3, v1) as u32;
    seq![epair(ma, mb), epair(mb, mc), epair(mc, ma)]
}

/// The center edges of the first `t` subdivided triangles.
pub open spec fn sub_center_upto(ix: Seq<u32>, es: Seq<(u32, u32)>, vbase: int, t: int) -> Seq<
    (u32, u32),
>
    decreases t,
{
    if t <= 0 {
        Seq::empty()
    } else {
        sub_center_upto(ix, es, vbase, t - 1) + sub_center_edges(ix, es, vbase, t - 1)
    }
}

/// The two half-edges laid down for every original edge: each endpoint
/// paired with the edge's midpoint id.
pub open spec fn half_edges_of(es: Seq<(u32, u32)>, vbase: int) -> Seq<(u32, u32)> {
    Seq::new(
        (2 * es.len()) as nat,
        |i: int|
            if i % 2 == 0 {
                (es[i / 2].0, (vbase + i / 2) as u32)
            } else {
                (es[i / 2].1, (vbase + i / 2) as u32)
            },
    )
}

/// The midpoint vertices appended by one subdivision round: the normalized
/// edge midpoints, in edge-list order.
pub open spec fn midpoints_of(vs: Seq<Vec3Fx>, es: Seq<(u32, u32)>) -> Seq<Vec3Fx> {
    Seq::new(es.len(), |j: int| crate::fixed::normalize_spec(edge_sum(vs, es[j])))
}

/// One subdivision round of a whole mesh, as a pure function.
pub open spec fn subdivided_spec(vs: Seq<Vec3Fx>, ix: Seq<u32>, es: Seq<(u32, u32)>) -> (
    Seq<Vec3Fx>,
    Seq<u32>,
    Seq<(u32, u32)>,
) {
    (
        vs + midpoints_of(vs, es),
        sub_indices_upto(ix, es, vs.len() as int, ix.len() as int / 3),
        half_edges_of(es, vs.len() as int) + sub_center_upto(ix, es, vs.len() as int, ix.len() as int / 3),
    )
}

/// The normalized corners of the base icosahedron.
pub open spec fn base_verts_spec() -> Seq<Vec3Fx> {
    Seq::new(12, |i: int| crate::fixed::normalize_spec(base_corners()[i]))
}

/// The whole icosphere mesh at subdivision level `n`, as a pure function:
/// generation is deterministic, and this names its result.
#[verifier::opaque]
pub open spec fn mesh_level_spec(n: nat) -> (Seq<Vec3Fx>, Seq<u32>, Seq<(u32, u32)>)
    decreases n,
{
    if n == 0 {
        (base_verts_spec(), base_faces(), base_edge_list())
    } else {
        let m = mesh_level_spec((n - 1) as nat);
        subdivided_spec(m.0, m.1, m.2)
    }
}

/// The coordinate sum of an edge's two endpoints: the (unnormalized)
/// midpoint direction.
pub open spec fn edge_sum(vs: Seq<Vec3Fx>, e: (u32, u32)) -> Vec3Fx {
    Vec3Fx {
        x: (vs[e.0 as int].x + vs[e.1 as int].x) as i64,
        y: (vs[e.0 as int].y + vs[e.1 as int].y) as i64,
        z: (vs[e.0 as int].z + vs[e.1 as int].z) as i64,
    }
}

/// An icosphere mesh buffer: vertex positions, triangle indices, and the
/// distinct undirected edges of the triangulation.
pub struct IcoSphere {
    pub vertices: Vec<Vec3Fx>,
    pub indices: Vec<u32>,
    pub edges: Vec<(u32, u32)>,
    pub subdivisions: u32,
}

impl IcoSphere {
    /// Structural well-formedness of the mesh buffer.
    pub open spec fn wf(self) -> bool {
        &&& self.indices@.len() % 3 == 0
        &&& 2 * self.edges@.len() == self.indices@.len()
        &&& indices_bounded(self.indices@, self.vertices@.len() as int)
        &&& edges_bounded(self.edges@, self.vertices@.len() as int)
        &&& tris_covered(self.edges@, self.indices@)
        &&& vertices_on_sphere(self.vertices@)
    }

    pub fn new() -> (r: IcoSphere)
        ensures
            r.wf(),
            r.vertices@.len() == 0,
            r.indices@.len() == 0,
            r.edges@.len() == 0,
            r.subdivisions == 0,
    {
        IcoSphere { vertices: Vec::new(), indices: Vec::new(), edges: Vec::new(), subdivisions: 0 }
    }

    /// Reset the buffers to the regular icosahedron: 12 vertices, 20
    /// triangles, 30 edges, all vertices normalized onto the unit sphere.
    fn init_icosahedron(&mut self)
        ensures
            final(self).wf(),
            final(self).vertices@.len() == 12,
            final(self).indices@.len() == 60,
            final(self).edges@.len() == 30,
            final(self).subdivisions == old(self).subdivisions,
            final(self).indices@ == base_faces(),
            final(self).edges@ == base_edge_list(),
            forall|i: int|
                0 <= i < 12 ==> final(self).vertices@[i] == crate::fixed::normalize_spec(
                    #[trigger] base_corners()[i],
                ),
    {
        // raw corner directions: cyclic permutations of (+-1, +-phi, 0),
        // with phi the golden ratio, scaled to fixed point
        let t: i64 = 106039;
        let u: i64 = UNIT;
        let nt: i64 = -t;
        let nu: i64 = -u;
        let raw: Vec<Vec3Fx> = vec![
            Vec3Fx { x: nu, y: t, z: 0 },
            Vec3Fx { x: u, y: t, z: 0 },
            Vec3Fx { x: nu, y: nt, z: 0 },
            Vec3Fx { x: u, y: nt, z: 0 },
            Vec3Fx { x: 0, y: nu, z: t },
            Vec3Fx { x: 0, y: u, z: t },
            Vec3Fx { x: 0, y: nu, z: nt },
            Vec3Fx { x: 0, y: u, z: nt },
            Vec3Fx { x: t, y: 0, z: nu },
            Vec3Fx { x: t, y: 0, z: u },
            Vec3Fx { x: nt, y: 0, z: nu },
            Vec3Fx { x: nt, y: 0, z: u },
        ];
        proof {
            assert(raw@ =~= base_corners());
        }
        let mut vs: Vec<Vec3Fx> = Vec::new();
        let mut i: usize = 0;
        while i < 12
            invariant
                i <= 12,
                raw@.len() == 12,
                raw@ == base_corners(),
                vs@.len() == i,
                vertices_on_sphere(vs@),
                forall|j: int|
                    0 <= j < i ==> vs@[j] == crate::fixed::normalize_spec(
                        #[trigger] base_corners()[j],
                    ),
                forall|j: int|
                    0 <= j < raw@.len() ==> coords_bounded(
                        #[trigger] raw@[j],
                        crate::fixed::NORMALIZE_COORD_LIMIT as int,
                    ),
            decreases 12 - i,
        {
            let v = normalize(raw[i]);
            vs.push(v);
            i += 1;
        }
        let ix: Vec<u32> = vec![
            0, 11, 5, 0, 5, 1, 0, 1, 7, 0, 7, 10, 0, 10, 11,
            1, 5, 9, 5, 11, 4, 11, 10, 2, 10, 7, 6, 7, 1, 8,
            3, 9, 4, 3, 4, 2, 3, 2, 6, 3, 6, 8, 3, 8, 9,
            4, 9, 5, 2, 4, 11, 6, 2, 10, 8, 6, 7, 9, 8, 1,
        ];
        let es: Vec<(u32, u32)> = vec![
            (0, 11), (5, 11), (0, 5), (1, 5), (0, 1),
            (1, 7), (0, 7), (7, 10), (0, 10), (10, 11),
            (5, 9), (1, 9), (4, 11), (4, 5), (2, 10),
            (2, 11), (6, 7), (6, 10), (1, 8), (7, 8),
            (3, 9), (4, 9), (3, 4), (2, 4), (2, 3),
            (2, 6), (3, 6), (6, 8), (3, 8), (8, 9),
        ];
        proof {
            assert(ix@ =~= base_faces());
            assert(es@ =~= base_edge_list());
            lemma_base_mesh_shape(es@, ix@);
        }
        self.vertices = vs;
        self.indices = ix;
        self.edges = es;
    }

    /// One subdivision round: every triangle is replaced by four, with one
    /// new normalized midpoint vertex per edge-list entry, shared by all
    /// triangles along that edge.
    #[verifier::rlimit(100)]
    fn subdivide_triangles(&mut self)
        requires
            old(self).wf(),
            old(self).vertices@.len() + old(self).edges@.len() <= 0x0400_0000,
            old(self).indices@.len() <= 0x0400_0000,
        ensures
            final(self).wf(),
            final(self).vertices@.len() == old(self).vertices@.len() + old(self).edges@.len(),
            final(self).edges@.len() == 2 * old(self).edges@.len() + old(self).indices@.len(),
            final(self).indices@.len() == 4 * old(self).indices@.len(),
            final(self).subdivisions == old(self).subdivisions,
            old(self).vertices@.is_prefix_of(final(self).vertices@),
            forall|j: int|
                0 <= j < old(self).edges@.len() ==> final(self).vertices@[old(
                    self,
                ).vertices@.len() + j] == crate::fixed::normalize_spec(
                    edge_sum(old(self).vertices@, #[trigger] old(self).edges@[j]),
                ),
            final(self).vertices@ == old(self).vertices@ + midpoints_of(
                old(self).vertices@,
                old(self).edges@,
            ),
            final(self).indices@ == sub_indices_upto(
                old(self).indices@,
                old(self).edges@,
                old(self).vertices@.len() as int,
                old(self).indices@.len() as int / 3,
            ),
            final(self).edges@ == half_edges_of(old(self).edges@, old(self).vertices@.len() as int)
                + sub_center_upto(
                old(self).indices@,
                old(self).edges@,
                old(self).vertices@.len() as int,
                old(self).indices@.len() as int / 3,
            ),
    {
        let ghost orig: IcoSphere = *self;
        let old_vcount: u32 = self.vertices.len() as u32;
        let ecount: usize = self.edges.len();

        // one midpoint vertex per edge, two half-edges per edge, and a cache
        // from the packed endpoint pair to the midpoint's vertex id
        let mut mid_map: HashMap<u64, u32> = HashMap::new();
        let mut new_edges: Vec<(u32, u32)> = Vec::new();
        let mut k: usize = 0;
        while k < ecount
            invariant
                orig.wf(),
                orig.vertices@.len() + orig.edges@.len() <= 0x0400_0000,
                old_vcount == orig.vertices@.len(),
                ecount == orig.edges@.len(),
                k <= ecount,
                self.indices == orig.indices,
                self.edges == orig.edges,
                self.subdivisions == orig.subdivisions,
                self.vertices@.len() == orig.vertices@.len() + k,
                orig.vertices@.is_prefix_of(self.vertices@),
                forall|j: int|
                    0 <= j < k ==> self.vertices@[orig.vertices@.len() + j]
                        == crate::fixed::normalize_spec(
                        edge_sum(orig.vertices@, #[trigger] orig.edges@[j]),
                    ),
                vertices_on_sphere(self.vertices@),
                new_edges@.len() == 2 * k,
                edges_bounded(new_edges@, self.vertices@.len() as int),
                half_edges_laid(new_edges@, orig.edges@, old_vcount, k as int),
                forall|j: int|
                    0 <= j < k ==> mid_map@.contains_key(pack_key(#[trigger] orig.edges@[j])),
                forall|j: int|
                    0 <= j < k ==> (mid_map@[pack_key(#[trigger] orig.edges@[j])] as int)
                        == old_vcount + last_edge_index(
                        orig.edges@.take(k as int),
                        orig.edges@[j],
                    ),
            decreases ecount - k,
        {
            let (a, b) = self.edges[k];
            let va = self.vertices[a as usize];
            let vb = self.vertices[b as usize];
            let m = normalize(Vec3Fx { x: va.x + vb.x, y: va.y + vb.y, z: va.z + vb.z });
            let mid_id: u32 = old_vcount + k as u32;
            let ghost pre_verts = self.vertices@;
            self.vertices.push(m);
            proof {
                assert(Vec3Fx {
                    x: (va.x + vb.x) as i64,
                    y: (va.y + vb.y) as i64,
                    z: (va.z + vb.z) as i64,
                } == edge_sum(orig.vertices@, orig.edges@[k as int]));
                assert forall|j: int| 0 <= j < k + 1 implies self.vertices@[orig.vertices@.len()
                    + j] == crate::fixed::normalize_spec(
                    edge_sum(orig.vertices@, #[trigger] orig.edges@[j]),
                ) by {
                    if j < k {
                        assert(self.vertices@[orig.vertices@.len() + j] == pre_verts[
                            orig.vertices@.len() + j]);
                        assert(pre_verts[orig.vertices@.len() + j]
                            == crate::fixed::normalize_spec(
                            edge_sum(orig.vertices@, orig.edges@[j]),
                        ));
                    } else {
                        assert(self.vertices@[orig.vertices@.len() + j] == m);
                    }
                }
            }
            let ghost pre_edges = new_edges@;
            new_edges.push((a, mid_id));
            new_edges.push((b, mid_id));
            let ghost pre_map = mid_map@;
            mid_map.insert(pack(a, b), mid_id);
            proof {
                assert(orig.edges@[k as int] == (a, b));
                let ghost tk = orig.edges@.take(k as int);
                let ghost tk1 = orig.edges@.take(k as int + 1);
                assert(tk1 =~= tk.push(orig.edges@[k as int]));
                assert forall|j: int| 0 <= j < k + 1 implies (mid_map@[pack_key(
                    #[trigger] orig.edges@[j],
                )] as int) == old_vcount + last_edge_index(tk1, orig.edges@[j]) by {
                    lemma_last_edge_index_push(tk, orig.edges@[k as int], orig.edges@[j]);
                    if orig.edges@[j] == (a, b) {
                        assert(mid_map@[pack_key(orig.edges@[j])] == mid_id);
                        assert(last_edge_index(tk1, orig.edges@[j]) == k);
                    } else {
                        if pack_key(orig.edges@[j]) == pack_key((a, b)) {
                            lemma_pack_injective(orig.edges@[j], (a, b));
                        }
                        assert(mid_map@[pack_key(orig.edges@[j])] == pre_map[pack_key(
                            orig.edges@[j],
                        )]);
                        assert(j < k);
                        assert((pre_map[pack_key(orig.edges@[j])] as int) == old_vcount
                            + last_edge_index(tk, orig.edges@[j]));
                    }
                }
                assert(new_edges@ == pre_edges.push((a, mid_id)).push((b, mid_id)));
                assert forall|j: int| 0 <= j < k + 1 implies {
                    &&& (#[trigger] new_edges@[2 * j]).0 == orig.edges@[j].0
                    &&& new_edges@[2 * j].1 as int == old_vcount + j
                    &&& new_edges@[2 * j + 1].0 == orig.edges@[j].1
                    &&& new_edges@[2 * j + 1].1 as int == old_vcount + j
                } by {
                    if j == k {
                        assert(new_edges@[2 * j] == (a, mid_id));
                        assert(new_edges@[2 * j + 1] == (b, mid_id));
                    } else {
                        assert(half_edges_laid(pre_edges, orig.edges@, old_vcount, k as int));
                        assert((pre_edges[2 * j]).0 == orig.edges@[j].0);
                        assert(pre_edges[2 * j].1 as int == old_vcount + j);
                        assert(pre_edges[2 * j + 1].0 == orig.edges@[j].1);
                        assert(pre_edges[2 * j + 1].1 as int == old_vcount + j);
                        assert(new_edges@[2 * j] == pre_edges[2 * j]);
                        assert(new_edges@[2 * j + 1] == pre_edges[2 * j + 1]);
                    }
                }
                assert(half_edges_laid(new_edges@, orig.edges@, old_vcount, k as int + 1));
            }
            k += 1;
        }

        proof {
            assert(orig.edges@.take(ecount as int) =~= orig.edges@);
            assert forall|ii: int| 0 <= ii < 2 * (ecount as int) implies new_edges@[ii]
                == half_edges_of(orig.edges@, old_vcount as int)[ii] by {
                let j = ii / 2;
                if ii % 2 == 0 {
                    assert(ii == 2 * j);
                    assert((new_edges@[2 * j]).0 == orig.edges@[j].0);
                    assert(new_edges@[2 * j].1 as int == old_vcount + j);
                    assert(new_edges@[ii] =~= (orig.edges@[j].0, (old_vcount + j) as u32));
                } else {
                    assert(ii == 2 * j + 1);
                    assert((new_edges@[2 * j]).0 == orig.edges@[j].0);
                    assert(new_edges@[2 * j + 1].0 == orig.edges@[j].1);
                    assert(new_edges@[2 * j + 1].1 as int == old_vcount + j);
                    assert(new_edges@[ii] =~= (orig.edges@[j].1, (old_vcount + j) as u32));
                }
            }
            assert(new_edges@ =~= half_edges_of(orig.edges@, old_vcount as int));
            assert(new_edges@ =~= half_edges_of(orig.edges@, old_vcount as int)
                + sub_center_upto(orig.indices@, orig.edges@, old_vcount as int, 0));
        }
        // four triangles per old triangle, three center edges per old
        // triangle; midpoints come from the shared cache
        let tcount: usize = self.indices.len() / 3;
        let mut new_indices: Vec<u32> = Vec::new();
        let mut t: usize = 0;
        while t < tcount
            invariant
                orig.wf(),
                orig.vertices@.len() + orig.edges@.len() <= 0x0400_0000,
                orig.indices@.len() <= 0x0400_0000,
                old_vcount == orig.vertices@.len(),
                ecount == orig.edges@.len(),
                tcount == orig.indices@.len() / 3,
                t <= tcount,
                self.indices == orig.indices,
                self.edges == orig.edges,
                self.subdivisions == orig.subdivisions,
                self.vertices@.len() == orig.vertices@.len() + ecount,
                orig.vertices@.is_prefix_of(self.vertices@),
                vertices_on_sphere(self.vertices@),
                new_edges@.len() == 2 * ecount + 3 * t,
                edges_bounded(new_edges@, self.vertices@.len() as int),
                half_edges_laid(new_edges@, orig.edges@, old_vcount, ecount as int),
                forall|j: int|
                    0 <= j < ecount ==> mid_map@.contains_key(pack_key(#[trigger] orig.edges@[j])),
                forall|j: int|
                    0 <= j < ecount ==> (mid_map@[pack_key(#[trigger] orig.edges@[j])] as int)
                        == old_vcount + last_edge_index(orig.edges@, orig.edges@[j]),
                new_indices@.len() == 12 * t,
                indices_bounded(new_indices@, self.vertices@.len() as int),
                tris_covered(new_edges@, new_indices@),
                new_indices@ == sub_indices_upto(
                    orig.indices@,
                    orig.edges@,
                    old_vcount as int,
                    t as int,
                ),
                new_edges@ == half_edges_of(orig.edges@, old_vcount as int) + sub_center_upto(
                    orig.indices@,
                    orig.edges@,
                    old_vcount as int,
                    t as int,
                ),
            decreases tcount - t,
        {
            let v1 = self.indices[3 * t];
            let v2 = self.indices[3 * t + 1];
            let v3 = self.indices[3 * t + 2];
            proof {
                assert(tri_edges_in(orig.edges@, orig.indices@, t as int));
            }
            let ma = lookup_mid(&mid_map, v1, v2, Ghost(orig.edges@), Ghost(old_vcount));
            let mb = lookup_mid(&mid_map, v2, v3, Ghost(orig.edges@), Ghost(old_vcount));
            let mc = lookup_mid(&mid_map, v3, v1, Ghost(orig.edges@), Ghost(old_vcount));

            let ghost es_before = new_edges@;
            let ghost ix_before = new_indices@;

            // the three center edges of this triangle
            push_ordered_edge(&mut new_edges, ma, mb);
            push_ordered_edge(&mut new_edges, mb, mc);
            push_ordered_edge(&mut new_edges, mc, ma);

            // corner triangles and the center triangle
            new_indices.push(v1);
            new_indices.push(ma);
            new_indices.push(mc);
            new_indices.push(v2);
            new_indices.push(mb);
            new_indices.push(ma);
            new_indices.push(v3);
            new_indices.push(mc);
            new_indices.push(mb);
            new_indices.push(ma);
            new_indices.push(mb);
            new_indices.push(mc);

            proof {
                assert(new_indices@ =~= ix_before + seq![v1, ma, mc, v2, mb, ma, v3, mc, mb, ma, mb, mc]);
                assert(ma as int == mid_of(orig.edges@, old_vcount as int, v1, v2));
                assert(mb as int == mid_of(orig.edges@, old_vcount as int, v2, v3));
                assert(mc as int == mid_of(orig.edges@, old_vcount as int, v3, v1));
                assert(seq![v1, ma, mc, v2, mb, ma, v3, mc, mb, ma, mb, mc] =~= sub_tri_indices(
                    orig.indices@,
                    orig.edges@,
                    old_vcount as int,
                    t as int,
                ));
                assert(new_indices@ =~= sub_indices_upto(
                    orig.indices@,
                    orig.edges@,
                    old_vcount as int,
                    t as int + 1,
                ));
                assert(new_edges@ == es_before.push(epair(ma, mb)).push(epair(mb, mc)).push(
                    epair(mc, ma),
                ));
                assert(seq![epair(ma, mb), epair(mb, mc), epair(mc, ma)] =~= sub_center_edges(
                    orig.indices@,
                    orig.edges@,
                    old_vcount as int,
                    t as int,
                ));
                assert(new_edges@ =~= es_before + seq![epair(ma, mb), epair(mb, mc), epair(mc, ma)]);
                assert(new_edges@ =~= half_edges_of(orig.edges@, old_vcount as int)
                    + sub_center_upto(orig.indices@, orig.edges@, old_vcount as int, t as int + 1));
                assert forall|j: int| 0 <= j < ecount implies {
                    &&& (#[trigger] new_edges@[2 * j]).0 == orig.edges@[j].0
                    &&& new_edges@[2 * j].1 as int == old_vcount + j
                    &&& new_edges@[2 * j + 1].0 == orig.edges@[j].1
                    &&& new_edges@[2 * j + 1].1 as int == old_vcount + j
                } by {
                    assert(half_edges_laid(es_before, orig.edges@, old_vcount, ecount as int));
                    assert((es_before[2 * j]).0 == orig.edges@[j].0);
                    assert(es_before[2 * j].1 as int == old_vcount + j);
                    assert(es_before[2 * j + 1].0 == orig.edges@[j].1);
                    assert(es_before[2 * j + 1].1 as int == old_vcount + j);
                    assert(new_edges@[2 * j] == es_before[2 * j]);
                    assert(new_edges@[2 * j + 1] == es_before[2 * j + 1]);
                }
                assert(half_edges_laid(new_edges@, orig.edges@, old_vcount, ecount as int));
                lemma_subdivided_tri_covered(
                    es_before,
                    new_edges@,
                    ix_before,
                    new_indices@,
                    orig.edges@,
                    old_vcount,
                    v1,
                    v2,
                    v3,
                    ma,
                    mb,
                    mc,
                );
            }
            t += 1;
        }
        proof {
            let full = orig.vertices@ + midpoints_of(orig.vertices@, orig.edges@);
            assert forall|ii: int| 0 <= ii < self.vertices@.len() implies self.vertices@[ii]
                == full[ii] by {
                if ii < orig.vertices@.len() {
                    assert(self.vertices@[ii] == orig.vertices@[ii]);
                } else {
                    let j = ii - orig.vertices@.len();
                    assert(self.vertices@[orig.vertices@.len() + j]
                        == crate::fixed::normalize_spec(
                        edge_sum(orig.vertices@, orig.edges@[j]),
                    ));
                }
            }
            assert(self.vertices@ =~= full);
        }
        self.indices = new_indices;
        self.edges = new_edges;
    }

    /// Generate the icosphere at the given subdivision level.
    ///
    /// The resulting mesh has exactly `10*4^n + 2` vertices, `20*4^n`
    /// triangles (`60*4^n` index entries) and `30*4^n` distinct edges, and
    /// every vertex lies on the unit sphere up to the fixed-point tolerance.
    pub fn generate(&mut self, subdivisions: u32)
        requires
            subdivisions <= 10,
        ensures
            final(self).wf(),
            final(self).vertices@.len() == vertex_count_spec(subdivisions as nat),
            final(self).indices@.len() == index_count_spec(subdivisions as nat),
            final(self).edges@.len() == edge_count_spec(subdivisions as nat),
            final(self).subdivisions == subdivisions,
            final(self).vertices@ == mesh_level_spec(subdivisions as nat).0,
            final(self).indices@ == mesh_level_spec(subdivisions as nat).1,
            final(self).edges@ == mesh_level_spec(subdivisions as nat).2,
            subdivisions == 0 ==> final(self).indices@ == base_faces() && final(self).edges@
                == base_edge_list() && (forall|i: int|
                0 <= i < 12 ==> final(self).vertices@[i] == crate::fixed::normalize_spec(
                    #[trigger] base_corners()[i],
                )),
    {
        self.init_icosahedron();
        proof {
            reveal(mesh_level_spec);
            assert(self.vertices@ =~= base_verts_spec());
            assert(self.vertices@ == mesh_level_spec(0).0);
        }
        let mut i: u32 = 0;
        while i < subdivisions
            invariant
                i <= subdivisions <= 10,
                self.wf(),
                self.vertices@.len() == vertex_count_spec(i as nat),
                self.indices@.len() == index_count_spec(i as nat),
                self.edges@.len() == edge_count_spec(i as nat),
                self.vertices@ == mesh_level_spec(i as nat).0,
                self.indices@ == mesh_level_spec(i as nat).1,
                self.edges@ == mesh_level_spec(i as nat).2,
            decreases subdivisions - i,
        {
            proof {
                lemma_pow4_monotone(i as nat, 9);
                reveal_with_fuel(pow4, 11);
                assert(pow4(9) == 262144);
            }
            let ghost pre = *self;
            self.subdivide_triangles();
            proof {
                reveal(mesh_level_spec);
                assert(mesh_level_spec((i + 1) as nat) == subdivided_spec(
                    mesh_level_spec(i as nat).0,
                    mesh_level_spec(i as nat).1,
                    mesh_level_spec(i as nat).2,
                ));
                assert(self.vertices@ == pre.vertices@ + midpoints_of(pre.vertices@, pre.edges@));
                assert(self.vertices@ == mesh_level_spec((i + 1) as nat).0);
                assert(self.indices@ == mesh_level_spec((i + 1) as nat).1);
                assert(self.edges@ == mesh_level_spec((i + 1) as nat).2);
            }
            i += 1;
        }
        proof {
            if subdivisions == 0 {
                reveal(mesh_level_spec);
                assert(mesh_level_spec(0).1 == base_faces());
                assert(mesh_level_spec(0).2 == base_edge_list());
                assert forall|j: int| 0 <= j < 12 implies self.vertices@[j]
                    == crate::fixed::normalize_spec(#[trigger] base_corners()[j]) by {
                    assert(self.vertices@[j] == base_verts_spec()[j]);
                }
            }
        }
        self.subdivisions = subdivisions;
    }
}

/// Packed cache key for the undirected edge `{a, b}`.
pub open spec fn pack_key(e: (u32, u32)) -> u64 {
    ((e.0 as int) * 0x1_0000_0000 + (e.1 as int)) as u64
}

fn pack(a: u32, b: u32) -> (r: u64)
    ensures
        r == pack_key((a, b)),
{
    (a as u64) * 0x1_0000_0000 + (b as u64)
}

proof fn lemma_pack_injective(e1: (u32, u32), e2: (u32, u32))
    requires
        pack_key(e1) == pack_key(e2),
    ensures
        e1 == e2,
{
    assert((e1.0 as int) * 0x1_0000_0000 + (e1.1 as int) == (e2.0 as int) * 0x1_0000_0000 + (
    e2.1 as int));
}

/// Find the midpoint vertex id of the edge `{a, b}` in the cache.
fn lookup_mid(
    mid_map: &HashMap<u64, u32>,
    a: u32,
    b: u32,
    Ghost(es): Ghost<Seq<(u32, u32)>>,
    Ghost(vbase): Ghost<u32>,
) -> (mid: u32)
    requires
        edge_in(es, a, b),
        edges_bounded(es, vbase as int),
        vbase + es.len() <= 0x0800_0000,
        forall|j: int| 0 <= j < es.len() ==> mid_map@.contains_key(pack_key(#[trigger] es[j])),
        forall|j: int|
            0 <= j < es.len() ==> (mid_map@[pack_key(#[trigger] es[j])] as int) == vbase
                + last_edge_index(es, es[j]),
    ensures
        mid as int == mid_of(es, vbase as int, a, b),
        exists|j: int|
            0 <= j < es.len() && (#[trigger] es[j]) == epair(a, b) && mid == vbase + j,
        vbase <= mid,
        (mid as int) < vbase + es.len(),
        a < vbase && b < vbase && a != b,
{
    proof {
        let j0 = choose|j: int| 0 <= j < es.len() && (#[trigger] es[j]) == epair(a, b);
        assert(mid_map@.contains_key(pack_key(es[j0])));
    }
    let key = if a < b {
        pack(a, b)
    } else {
        pack(b, a)
    };
    let r = mid_map.get(&key);
    match r {
        Some(mid) => {
            proof {
                let j0 = choose|j: int| 0 <= j < es.len() && (#[trigger] es[j]) == epair(a, b);
                assert(key == pack_key(es[j0]));
                assert((mid_map@[key] as int) == vbase + last_edge_index(es, es[j0]));
                lemma_last_edge_index_in_range(es, epair(a, b));
                let le = last_edge_index(es, epair(a, b));
                assert(es[le] == epair(a, b));
                assert(mid as int == vbase + le);
            }
            *mid
        },
        None => {
            proof {
                let j0 = choose|j: int| 0 <= j < es.len() && (#[trigger] es[j]) == epair(a, b);
                assert(mid_map@.contains_key(pack_key(es[j0])));
                assert(false);
            }
            0
        },
    }
}

/// Push the undirected edge `{a, b}` with its endpoints ordered.
fn push_ordered_edge(es: &mut Vec<(u32, u32)>, a: u32, b: u32)
    requires
        a != b,
    ensures
        final(es)@ == old(es)@.push(epair(a, b)),
        edge_in(final(es)@, a, b),
{
    if a < b {
        es.push((a, b));
    } else {
        es.push((b, a));
    }
    proof {
        assert(es@[es@.len() - 1] == epair(a, b));
    }
}

/// Coverage of the four triangles that replace one subdivided triangle:
/// their twelve edges are all in the extended edge list.
#[verifier::spinoff_prover]
proof fn lemma_subdivided_tri_covered(
    es_before: Seq<(u32, u32)>,
    es_after: Seq<(u32, u32)>,
    ix_before: Seq<u32>,
    ix_after: Seq<u32>,
    orig_edges: Seq<(u32, u32)>,
    vbase: u32,
    v1: u32,
    v2: u32,
    v3: u32,
    ma: u32,
    mb: u32,
    mc: u32,
)
    requires
        tris_covered(es_before, ix_before),
        ix_before.len() % 3 == 0,
        es_after == es_before.push(epair(ma, mb)).push(epair(mb, mc)).push(epair(mc, ma)),
        ix_after == ix_before + seq![v1, ma, mc, v2, mb, ma, v3, mc, mb, ma, mb, mc],
        edges_bounded(orig_edges, vbase as int),
        half_edges_laid(es_before, orig_edges, vbase, orig_edges.len() as int),
        2 * orig_edges.len() <= es_before.len(),
        vbase + orig_edges.len() <= 0x0800_0000,
        exists|j: int|
            0 <= j < orig_edges.len() && (#[trigger] orig_edges[j]) == epair(v1, v2) && ma == vbase
                + j,
        exists|j: int|
            0 <= j < orig_edges.len() && (#[trigger] orig_edges[j]) == epair(v2, v3) && mb == vbase
                + j,
        exists|j: int|
            0 <= j < orig_edges.len() && (#[trigger] orig_edges[j]) == epair(v3, v1) && mc == vbase
                + j,
        v1 < vbase && v2 < vbase && v3 < vbase,
        ma != mb && mb != mc && mc != ma,
    ensures
        tris_covered(es_after, ix_after),
        ma != v1 && ma != v2 && ma != v3 && mb != v1 && mb != v2 && mb != v3 && mc != v1 && mc != v2
            && mc != v3,
{
    let la = es_before.len() as int;
    // the three center edges sit at the end of the extended list
    assert(es_after[la] == epair(ma, mb));
    assert(es_after[la + 1] == epair(mb, mc));
    assert(es_after[la + 2] == epair(mc, ma));
    assert(edge_in(es_after, ma, mb));
    assert(edge_in(es_after, mb, mc));
    assert(edge_in(es_after, mc, ma));
    // half-edges reach each corner vertex from its two midpoints
    lemma_half_edge_in(es_before, orig_edges, vbase, v1, v2, ma);
    lemma_half_edge_in(es_before, orig_edges, vbase, v2, v1, ma);
    lemma_half_edge_in(es_before, orig_edges, vbase, v2, v3, mb);
    lemma_half_edge_in(es_before, orig_edges, vbase, v3, v2, mb);
    lemma_half_edge_in(es_before, orig_edges, vbase, v3, v1, mc);
    lemma_half_edge_in(es_before, orig_edges, vbase, v1, v3, mc);
    assert(es_before.is_prefix_of(es_after));
    lemma_edge_in_prefix(es_before, es_after, v1, ma);
    lemma_edge_in_prefix(es_before, es_after, v2, ma);
    lemma_edge_in_prefix(es_before, es_after, v2, mb);
    lemma_edge_in_prefix(es_before, es_after, v3, mb);
    lemma_edge_in_prefix(es_before, es_after, v3, mc);
    lemma_edge_in_prefix(es_before, es_after, v1, mc);
    // previously built triangles keep their coverage
    lemma_tris_covered_extend(es_before, es_after, ix_before, ix_after);
    let n0 = ix_before.len() / 3;
    assert forall|t: int| 0 <= t < ix_after.len() / 3 implies #[trigger] tri_edges_in(
        es_after,
        ix_after,
        t,
    ) by {
        if t < n0 {
            assert(tri_edges_in(es_after, ix_after, t));
        } else {
            assert(ix_after.len() == ix_before.len() + 12);
            if t == n0 {
                assert(ix_after[3 * t] == v1 && ix_after[3 * t + 1] == ma && ix_after[3 * t + 2]
                    == mc);
                assert(edge_in(es_after, v1, ma) && edge_in(es_after, ma, mc) && edge_in(
                    es_after,
                    mc,
                    v1,
                ));
            } else if t == n0 + 1 {
                assert(ix_after[3 * t] == v2 && ix_after[3 * t + 1] == mb && ix_after[3 * t + 2]
                    == ma);
                assert(edge_in(es_after, v2, mb) && edge_in(es_after, mb, ma) && edge_in(
                    es_after,
                    ma,
                    v2,
                ));
            } else if t == n0 + 2 {
                assert(ix_after[3 * t] == v3 && ix_after[3 * t + 1] == mc && ix_after[3 * t + 2]
                    == mb);
                assert(edge_in(es_after, v3, mc) && edge_in(es_after, mc, mb) && edge_in(
                    es_after,
                    mb,
                    v3,
                ));
            } else {
                assert(t == n0 + 3);
                assert(ix_after[3 * t] == ma && ix_after[3 * t + 1] == mb && ix_after[3 * t + 2]
                    == mc);
                assert(edge_in(es_after, ma, mb) && edge_in(es_after, mb, mc) && edge_in(
                    es_after,
                    mc,
                    ma,
                ));
            }
        }
    }
}

/// The half-edge from corner `a` to the midpoint `mid` of the original edge
/// `{a, b}` is one of the two half-edge entries laid down for that edge.
proof fn lemma_half_edge_in(
    es: Seq<(u32, u32)>,
    orig_edges: Seq<(u32, u32)>,
    vbase: u32,
    a: u32,
    b: u32,
    mid: u32,
)
    requires
        edges_bounded(orig_edges, vbase as int),
        half_edges_laid(es, orig_edges, vbase, orig_edges.len() as int),
        2 * orig_edges.len() <= es.len(),
        vbase + orig_edges.len() <= 0x0800_0000,
        exists|j: int|
            0 <= j < orig_edges.len() && (#[trigger] orig_edges[j]) == epair(a, b) && mid == vbase
                + j,
        a < vbase,
    ensures
        edge_in(es, a, mid),
        a < mid,
{
    let j = choose|j: int|
        0 <= j < orig_edges.len() && (#[trigger] orig_edges[j]) == epair(a, b) && mid == vbase + j;
    assert(a == orig_edges[j].0 || a == orig_edges[j].1);
    assert((es[2 * j]).0 == orig_edges[j].0 && es[2 * j].1 as int == vbase + j && es[2 * j + 1].0
        == orig_edges[j].1 && es[2 * j + 1].1 as int == vbase + j);
    if a == orig_edges[j].0 {
        assert(es[2 * j] =~= (a, mid));
        assert(es[2 * j] == epair(a, mid));
    } else {
        assert(es[2 * j + 1] =~= (a, mid));
        assert(es[2 * j + 1] == epair(a, mid));
    }
}

/// The base icosahedron's twenty triangles all have their edges in the
/// thirty-entry edge list, and both lists stay within vertex ids 0..12.
proof fn lemma_base_mesh_shape(es: Seq<(u32, u32)>, ix: Seq<u32>)
    requires
        es == seq![
            (0u32, 11u32), (5u32, 11u32), (0u32, 5u32), (1u32, 5u32), (0u32, 1u32),
            (1u32, 7u32), (0u32, 7u32), (7u32, 10u32), (0u32, 10u32), (10u32, 11u32),
            (5u32, 9u32), (1u32, 9u32), (4u32, 11u32), (4u32, 5u32), (2u32, 10u32),
            (2u32, 11u32), (6u32, 7u32), (6u32, 10u32), (1u32, 8u32), (7u32, 8u32),
            (3u32, 9u32), (4u32, 9u32), (3u32, 4u32), (2u32, 4u32), (2u32, 3u32),
            (2u32, 6u32), (3u32, 6u32), (6u32, 8u32), (3u32, 8u32), (8u32, 9u32),
        ],
        ix == seq![
            0u32, 11u32, 5u32, 0u32, 5u32, 1u32, 0u32, 1u32, 7u32, 0u32, 7u32, 10u32, 0u32, 10u32,
            11u32, 1u32, 5u32, 9u32, 5u32, 11u32, 4u32, 11u32, 10u32, 2u32, 10u32, 7u32, 6u32,
            7u32, 1u32, 8u32, 3u32, 9u32, 4u32, 3u32, 4u32, 2u32, 3u32, 2u32, 6u32, 3u32, 6u32,
            8u32, 3u32, 8u32, 9u32, 4u32, 9u32, 5u32, 2u32, 4u32, 11u32, 6u32, 2u32, 10u32, 8u32,
            6u32, 7u32, 9u32, 8u32, 1u32,
        ],
    ensures
        indices_bounded(ix, 12),
        edges_bounded(es, 12),
        tris_covered(es, ix),
{
    assert forall|i: int| 0 <= i < ix.len() implies ((#[trigger] ix[i]) as int) < 12 by {
        assert(ix[i] == ix[i]);
    }
    assert forall|j: int| 0 <= j < es.len() implies ((#[trigger] es[j]).0 < es[j].1 && (
    es[j].1 as int) < 12) by {
        assert(es[j] == es[j]);
    }
    assert forall|t: int| 0 <= t < ix.len() / 3 implies #[trigger] tri_edges_in(es, ix, t) by {
        lemma_base_tri_covered(es, ix, t);
    }
}

proof fn lemma_base_edge_in(es: Seq<(u32, u32)>, a: u32, b: u32, j: int)
    requires
        0 <= j < es.len(),
        es[j] == epair(a, b),
    ensures
        edge_in(es, a, b),
{
}

#[verifier::spinoff_prover]
proof fn lemma_base_tri_covered(es: Seq<(u32, u32)>, ix: Seq<u32>, t: int)
    requires
        0 <= t < 20,
        es.len() == 30,
        ix.len() == 60,
        es == seq![
            (0u32, 11u32), (5u32, 11u32), (0u32, 5u32), (1u32, 5u32), (0u32, 1u32),
            (1u32, 7u32), (0u32, 7u32), (7u32, 10u32), (0u32, 10u32), (10u32, 11u32),
            (5u32, 9u32), (1u32, 9u32), (4u32, 11u32), (4u32, 5u32), (2u32, 10u32),
            (2u32, 11u32), (6u32, 7u32), (6u32, 10u32), (1u32, 8u32), (7u32, 8u32),
            (3u32, 9u32), (4u32, 9u32), (3u32, 4u32), (2u32, 4u32), (2u32, 3u32),
            (2u32, 6u32), (3u32, 6u32), (6u32, 8u32), (3u32, 8u32), (8u32, 9u32),
        ],
        ix == seq![
            0u32, 11u32, 5u32, 0u32, 5u32, 1u32, 0u32, 1u32, 7u32, 0u32, 7u32, 10u32, 0u32, 10u32,
            11u32, 1u32, 5u32, 9u32, 5u32, 11u32, 4u32, 11u32, 10u32, 2u32, 10u32, 7u32, 6u32,
            7u32, 1u32, 8u32, 3u32, 9u32, 4u32, 3u32, 4u32, 2u32, 3u32, 2u32, 6u32, 3u32, 6u32,
            8u32, 3u32, 8u32, 9u32, 4u32, 9u32, 5u32, 2u32, 4u32, 11u32, 6u32, 2u32, 10u32, 8u32,
            6u32, 7u32, 9u32, 8u32, 1u32,
        ],
    ensures
        tri_edges_in(es, ix, t),
{
    if t == 0 {
        lemma_base_edge_in(es, ix[0], ix[1], 0);
        lemma_base_edge_in(es, ix[1], ix[2], 1);
        lemma_base_edge_in(es, ix[2], ix[0], 2);
    } else if t == 1 {
        lemma_base_edge_in(es, ix[3], ix[4], 2);
        lemma_base_edge_in(es, ix[4], ix[5], 3);
        lemma_base_edge_in(es, ix[5], ix[3], 4);
    } else if t == 2 {
        lemma_base_edge_in(es, ix[6], ix[7], 4);
        lemma_base_edge_in(es, ix[7], ix[8], 5);
        lemma_base_edge_in(es, ix[8], ix[6], 6);
    } else if t == 3 {
        lemma_base_edge_in(es, ix[9], ix[10], 6);
        lemma_base_edge_in(es, ix[10], ix[11], 7);
        lemma_base_edge_in(es, ix[11], ix[9], 8);
    } else if t == 4 {
        lemma_base_edge_in(es, ix[12], ix[13], 8);
        lemma_base_edge_in(es, ix[13], ix[14], 9);
        lemma_base_edge_in(es, ix[14], ix[12], 0);
    } else if t == 5 {
        lemma_base_edge_in(es, ix[15], ix[16], 3);
        lemma_base_edge_in(es, ix[16], ix[17], 10);
        lemma_base_edge_in(es, ix[17], ix[15], 11);
    } else if t == 6 {
        lemma_base_edge_in(es, ix[18], ix[19], 1);
        lemma_base_edge_in(es, ix[19], ix[20], 12);
        lemma_base_edge_in(es, ix[20], ix[18], 13);
    } else if t == 7 {
        lemma_base_edge_in(es, ix[21], ix[22], 9);
        lemma_base_edge_in(es, ix[22], ix[23], 14);
        lemma_base_edge_in(es, ix[23], ix[21], 15);
    } else if t == 8 {
        lemma_base_edge_in(es, ix[24], ix[25], 7);
        lemma_base_edge_in(es, ix[25], ix[26], 16);
        lemma_base_edge_in(es, ix[26], ix[24], 17);
    } else if t == 9 {
        lemma_base_edge_in(es, ix[27], ix[28], 5);
        lemma_base_edge_in(es, ix[28], ix[29], 18);
        lemma_base_edge_in(es, ix[29], ix[27], 19);
    } else if t == 10 {
        lemma_base_edge_in(es, ix[30], ix[31], 20);
        lemma_base_edge_in(es, ix[31], ix[32], 21);
        lemma_base_edge_in(es, ix[32], ix[30], 22);
    } else if t == 11 {
        lemma_base_edge_in(es, ix[33], ix[34], 22);
        lemma_base_edge_in(es, ix[34], ix[35], 23);
        lemma_base_edge_in(es, ix[35], ix[33], 24);
    } else if t == 12 {
        lemma_base_edge_in(es, ix[36], ix[37], 24);
        lemma_base_edge_in(es, ix[37], ix[38], 25);
        lemma_base_edge_in(es, ix[38], ix[36], 26);
    } else if t == 13 {
        lemma_base_edge_in(es, ix[39], ix[40], 26);
        lemma_base_edge_in(es, ix[40], ix[41], 27);
        lemma_base_edge_in(es, ix[41], ix[39], 28);
    } else if t == 14 {
        lemma_base_edge_in(es, ix[42], ix[43], 28);
        lemma_base_edge_in(es, ix[43], ix[44], 29);
        lemma_base_edge_in(es, ix[44], ix[42], 20);
    } else if t == 15 {
        lemma_base_edge_in(es, ix[45], ix[46], 21);
        lemma_base_edge_in(es, ix[46], ix[47], 10);
        lemma_base_edge_in(es, ix[47], ix[45], 13);
    } else if t == 16 {
        lemma_base_edge_in(es, ix[48], ix[49], 23);
        lemma_base_edge_in(es, ix[49], ix[50], 12);
        lemma_base_edge_in(es, ix[50], ix[48], 15);
    } else if t == 17 {
        lemma_base_edge_in(es, ix[51], ix[52], 25);
        lemma_base_edge_in(es, ix[52], ix[53], 14);
        lemma_base_edge_in(es, ix[53], ix[51], 17);
    } else if t == 18 {
        lemma_base_edge_in(es, ix[54], ix[55], 27);
        lemma_base_edge_in(es, ix[55], ix[56], 16);
        lemma_base_edge_in(es, ix[56], ix[54], 19);
    } else {
        lemma_base_edge_in(es, ix[57], ix[58], 29);
        lemma_base_edge_in(es, ix[58], ix[59], 18);
        lemma_base_edge_in(es, ix[59], ix[57], 11);
    }
}

} // verus!
