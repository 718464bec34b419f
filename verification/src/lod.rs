//! Level-of-detail generation for planets and stars.
//!
//! A body builds its maximum-detail mesh once, lazily on the first request:
//! the icosphere at the configured maximum subdivision, the terrain data for
//! every one of its vertices, and a k-d tree over the undisplaced unit
//! vertices.  Every coarser level is a freshly subdivided icosphere whose
//! vertices copy the displaced position and color of the nearest
//! maximum-detail vertex.  Completed levels are cached: re-requesting a
//! level returns the cached buffers untouched, and a level above the
//! configured maximum is rejected without changing any state.

use vstd::prelude::*;
use crate::fixed::Vec3Fx;
use crate::fixed::UNIT;
use crate::fixed::normalize;
use crate::fixed::on_unit_sphere;
use crate::fixed::coords_bounded;
use crate::fixed::sat_add;
use crate::fixed::abs_i;
use crate::ico::IcoSphere;
use crate::ico::indices_bounded;
use crate::ico::vertex_count_spec;
use crate::ico::index_count_spec;
use crate::ico::pow4;
use crate::ico::lemma_pow4_monotone;
use crate::kdtree::KDTree3D;
use crate::kdtree::KD_COORD_LIMIT;
use crate::noise::NoiseField;
use crate::terrain::TerrainParams;
use crate::terrain::ColorPoint;
use crate::terrain::color_in_range;
use crate::terrain::palette_wf;
use crate::terrain::compute_vertex_data;
use crate::terrain::vertex_pos_spec;
use crate::terrain::vertex_color_spec;

verus! {

/// The structural errors the generation pipeline can report.  Geometry and
/// noise computation itself cannot fail.
#[derive(Clone, Copy, Debug, PartialEq, Eq, Structural)]
pub enum GeometryError {
    /// The requested level exceeds the body's configured maximum.
    LevelOutOfRange,
    /// A transfer buffer does not have the size the level calls for.
    BufferSizeMismatch,
    /// The body already has one generation request outstanding.
    RequestPending,
}

/// Completed vertex data of one planet level: parallel flattened arrays
/// (three entries per vertex) and the triangle index list.
pub struct PlanetVertex {
    pub position: Vec<i64>,
    pub color: Vec<i64>,
    pub normal: Vec<i64>,
    pub indice: Vec<u32>,
}

impl PlanetVertex {
    pub fn new() -> (r: PlanetVertex)
        ensures
            r.position@.len() == 0,
            r.color@.len() == 0,
            r.normal@.len() == 0,
            r.indice@.len() == 0,
    {
        PlanetVertex { position: Vec::new(), color: Vec::new(), normal: Vec::new(), indice: Vec::new() }
    }
}

/// The vertex triple starting at `3*i` of a flattened array.
pub open spec fn triple_at(s: Seq<i64>, i: int) -> Vec3Fx {
    Vec3Fx { x: s[3 * i], y: s[3 * i + 1], z: s[3 * i + 2] }
}

/// A completed planet level: arrays sized for exactly `10*4^l + 2` vertices
/// and `20*4^l` triangles, indices in range, and unit-length normals.
pub open spec fn entry_wf(e: PlanetVertex, l: nat) -> bool {
    &&& e.position@.len() == 3 * vertex_count_spec(l)
    &&& e.color@.len() == 3 * vertex_count_spec(l)
    &&& e.normal@.len() == 3 * vertex_count_spec(l)
    &&& e.indice@.len() == index_count_spec(l)
    &&& indices_bounded(e.indice@, vertex_count_spec(l) as int)
    &&& forall|i: int|
        0 <= i < vertex_count_spec(l) ==> on_unit_sphere(#[trigger] triple_at(e.normal@, i))
    &&& forall|i: int|
        0 <= i < vertex_count_spec(l) ==> coords_bounded(
            #[trigger] triple_at(e.position@, i),
            2 * UNIT as int,
        )
    &&& forall|i: int|
        0 <= i < vertex_count_spec(l) ==> color_in_range(#[trigger] triple_at(e.color@, i))
}

/// Vertex `k` of the flattened arrays carries the displaced position and
/// color of one and the same maximum-detail vertex.
pub open spec fn carries_max_vertex(
    pos: Seq<i64>,
    col: Seq<i64>,
    k: int,
    verts: Seq<Vec3Fx>,
    cols: Seq<Vec3Fx>,
) -> bool {
    exists|j: int|
        0 <= j < verts.len() && triple_at(pos, k) == #[trigger] verts[j] && triple_at(col, k)
            == cols[j]
}

/// Vertex `k` of the flattened arrays carries the data of a maximum-detail
/// vertex that is nearest, by squared Euclidean distance between the
/// undisplaced unit vertices, to the level's own unit vertex `k`.
pub open spec fn nearest_for_sample(
    pos: Seq<i64>,
    col: Seq<i64>,
    k: int,
    samples: Seq<Vec3Fx>,
    unit_max: Seq<Vec3Fx>,
    verts: Seq<Vec3Fx>,
    cols: Seq<Vec3Fx>,
) -> bool {
    exists|j: int|
        0 <= j < verts.len() && 0 <= j < unit_max.len() && triple_at(pos, k) == #[trigger] verts[j]
            && triple_at(col, k) == cols[j] && (forall|m: int|
            0 <= m < unit_max.len() ==> crate::kdtree::dist_sq(unit_max[j], samples[k])
                <= crate::kdtree::dist_sq(#[trigger] unit_max[m], samples[k]))
}

/// Every vertex of the entry carries the data of a maximum-detail vertex
/// nearest to the corresponding unit vertex of the level's own icosphere.
pub open spec fn resampled_nearest(
    e: PlanetVertex,
    level: nat,
    max_level: nat,
    verts: Seq<Vec3Fx>,
    cols: Seq<Vec3Fx>,
) -> bool {
    forall|i: int|
        0 <= i < e.position@.len() / 3 ==> #[trigger] nearest_for_sample(
            e.position@,
            e.color@,
            i,
            crate::ico::mesh_level_spec(level).0,
            crate::ico::mesh_level_spec(max_level).0,
            verts,
            cols,
        )
}

/// Carrying a nearest maximum-detail vertex is in particular carrying some
/// maximum-detail vertex, for every slot of the flattened arrays.
proof fn lemma_resample_exit(
    pos: Seq<i64>,
    col: Seq<i64>,
    samples: Seq<Vec3Fx>,
    unit_max: Seq<Vec3Fx>,
    verts: Seq<Vec3Fx>,
    cols: Seq<Vec3Fx>,
    n: int,
)
    requires
        pos.len() == 3 * n,
        forall|k: int|
            0 <= k < n ==> #[trigger] nearest_for_sample(pos, col, k, samples, unit_max, verts, cols),
    ensures
        forall|k: int|
            0 <= k < pos.len() / 3 ==> #[trigger] carries_max_vertex(pos, col, k, verts, cols),
        forall|k: int|
            0 <= k < pos.len() / 3 ==> #[trigger] nearest_for_sample(
                pos,
                col,
                k,
                samples,
                unit_max,
                verts,
                cols,
            ),
{
    assert forall|k: int| 0 <= k < pos.len() / 3 implies #[trigger] carries_max_vertex(
        pos,
        col,
        k,
        verts,
        cols,
    ) by {
        assert(nearest_for_sample(pos, col, k, samples, unit_max, verts, cols));
        let j = choose|j: int|
            0 <= j < verts.len() && 0 <= j < unit_max.len() && triple_at(pos, k)
                == #[trigger] verts[j] && triple_at(col, k) == cols[j] && (forall|m: int|
                0 <= m < unit_max.len() ==> crate::kdtree::dist_sq(unit_max[j], samples[k])
                    <= crate::kdtree::dist_sq(#[trigger] unit_max[m], samples[k]));
        assert(triple_at(pos, k) == verts[j] && triple_at(col, k) == cols[j]);
    }
}

/// The entry copies the maximum-detail arrays verbatim: vertex `i` carries
/// the data of maximum-detail vertex `i`.
pub open spec fn copies_max(e: PlanetVertex, verts: Seq<Vec3Fx>, cols: Seq<Vec3Fx>) -> bool {
    &&& e.position@.len() == 3 * verts.len()
    &&& forall|i: int|
        0 <= i < verts.len() ==> #[trigger] triple_at(e.position@, i) == verts[i] && triple_at(
            e.color@,
            i,
        ) == cols[i]
}

/// Every vertex of the entry carries the displaced position and color of
/// one and the same maximum-detail vertex.
pub open spec fn resampled_from(e: PlanetVertex, verts: Seq<Vec3Fx>, cols: Seq<Vec3Fx>) -> bool {
    forall|i: int|
        0 <= i < e.position@.len() / 3 ==> #[trigger] carries_max_vertex(
            e.position@,
            e.color@,
            i,
            verts,
            cols,
        )
}

/// A planet body: terrain parameters, the noise field, the lazily built
/// maximum-detail data, and the per-level cache.
pub struct Planet {
    pub max_subdivision: u32,
    params: TerrainParams,
    noise: NoiseField,
    lod_max_solid: Option<IcoSphere>,
    lod_max_vertices: Vec<Vec3Fx>,
    lod_max_colors: Vec<Vec3Fx>,
    kd_tree_max: Option<KDTree3D>,
    pub lod_levels: Vec<Option<PlanetVertex>>,
}

impl Planet {
    /// The terrain parameters, as the contracts see them.
    pub closed spec fn spec_params(self) -> TerrainParams {
        self.params
    }

    /// The configured maximum subdivision level, as the contracts see it.
    pub closed spec fn spec_max_subdivision(self) -> u32 {
        self.max_subdivision
    }

    /// The noise table, as the contracts see it.
    pub closed spec fn table(self) -> Seq<u8> {
        self.noise.table()
    }

    /// The maximum-detail mesh with its terrain and spatial index has been
    /// built, and its arrays carry exactly the synthesized vertex data.
    pub closed spec fn max_ready(self) -> bool {
        match (self.lod_max_solid, self.kd_tree_max) {
            (Option::Some(s), Option::Some(t)) => {
                &&& s.wf()
                &&& s.vertices@.len() == vertex_count_spec(self.max_subdivision as nat)
                &&& s.indices@.len() == index_count_spec(self.max_subdivision as nat)
                &&& s.vertices@ == crate::ico::mesh_level_spec(self.max_subdivision as nat).0
                &&& s.indices@ == crate::ico::mesh_level_spec(self.max_subdivision as nat).1
                &&& t.wf()
                &&& t.points() == s.vertices@
                &&& self.lod_max_vertices@.len() == s.vertices@.len()
                &&& self.lod_max_colors@.len() == s.vertices@.len()
                &&& forall|j: int|
                    0 <= j < s.vertices@.len() ==> #[trigger] self.lod_max_vertices@[j]
                        == vertex_pos_spec(self.params, self.noise.table(), s.vertices@[j])
                        && self.lod_max_colors@[j] == vertex_color_spec(
                        self.params,
                        self.noise.table(),
                        s.vertices@[j],
                    )
                &&& forall|j: int|
                    0 <= j < s.vertices@.len() ==> coords_bounded(
                        #[trigger] self.lod_max_vertices@[j],
                        2 * UNIT as int,
                    ) && color_in_range(self.lod_max_colors@[j])
            },
            _ => false,
        }
    }

    /// Structural invariant of a planet body.
    pub closed spec fn wf(self) -> bool {
        &&& self.params.wf()
        &&& self.noise.wf()
        &&& self.max_subdivision <= 8
        &&& self.lod_levels@.len() == self.max_subdivision + 1
        &&& forall|l: int|
            0 <= l < self.lod_levels@.len() ==> ((#[trigger] self.lod_levels@[l]) matches Some(e)
                ==> entry_wf(e, l as nat))
        &&& (self.lod_max_solid is Some ==> self.max_ready())
        &&& (self.lod_max_solid is None ==> self.kd_tree_max is None)
        &&& forall|l: int|
            0 <= l < self.lod_levels@.len() ==> ((#[trigger] self.lod_levels@[l]) is Some
                ==> self.lod_max_solid is Some)
    }

    /// Whether the cache already holds the given level.
    pub closed spec fn level_cached(self, level: int) -> bool {
        0 <= level < self.lod_levels@.len() && self.lod_levels@[level] is Some
    }

    /// The cache as the contracts see it.
    pub closed spec fn cache(self) -> Seq<Option<PlanetVertex>> {
        self.lod_levels@
    }

    /// Whether the maximum-detail data has been built.
    pub closed spec fn max_built(self) -> bool {
        self.lod_max_solid is Some
    }
}


/// The default sea color stops, keyed by the continent factor.
pub open spec fn ocean_stops() -> Seq<ColorPoint> {
    seq![
        ColorPoint { color: crate::terrain::hex_color_spec(0x000030), key: -13107i64 },
        ColorPoint { color: crate::terrain::hex_color_spec(0x000041), key: -6554i64 },
        ColorPoint { color: crate::terrain::hex_color_spec(0x35698C), key: -328i64 },
        ColorPoint { color: crate::terrain::hex_color_spec(0x40E0D0), key: 0i64 },
    ]
}

/// The default desert color stops.
pub open spec fn desert_stops() -> Seq<ColorPoint> {
    seq![
        ColorPoint { color: crate::terrain::hex_color_spec(0xC2B280), key: 0i64 },
        ColorPoint { color: crate::terrain::hex_color_spec(0xEEDC82), key: 32768i64 },
        ColorPoint { color: crate::terrain::hex_color_spec(0xFFE4B5), key: 65536i64 },
    ]
}

/// The default forest color stops.
pub open spec fn forest_stops() -> Seq<ColorPoint> {
    seq![
        ColorPoint { color: crate::terrain::hex_color_spec(0x05400A), key: -65536i64 },
        ColorPoint { color: crate::terrain::hex_color_spec(0x527048), key: 0i64 },
        ColorPoint { color: crate::terrain::hex_color_spec(0x7CFC00), key: 65536i64 },
    ]
}

/// The default tundra color stops.
pub open spec fn tundra_stops() -> Seq<ColorPoint> {
    seq![
        ColorPoint { color: crate::terrain::hex_color_spec(0x9FA8A3), key: 0i64 },
        ColorPoint { color: crate::terrain::hex_color_spec(0xDCE3E1), key: 65536i64 },
    ]
}

/// The default rock color stops, keyed by the mountain product.
pub open spec fn rock_stops() -> Seq<ColorPoint> {
    seq![
        ColorPoint { color: crate::terrain::hex_color_spec(0x000000), key: 0i64 },
        ColorPoint { color: crate::terrain::hex_color_spec(0x222222), key: 655i64 },
        ColorPoint { color: crate::terrain::hex_color_spec(0x333333), key: 3277i64 },
        ColorPoint { color: crate::terrain::hex_color_spec(0x666666), key: 5898i64 },
        ColorPoint { color: crate::terrain::hex_color_spec(0x777777), key: 6554i64 },
        ColorPoint { color: crate::terrain::hex_color_spec(0x8c8c9c), key: 58982i64 },
    ]
}

/// The default snow color stops.
pub open spec fn snow_stops() -> Seq<ColorPoint> {
    seq![
        ColorPoint { color: crate::terrain::hex_color_spec(0xEEEEEE), key: 0i64 },
        ColorPoint { color: crate::terrain::hex_color_spec(0xFFFFFF), key: 65536i64 },
    ]
}

/// Default sea color stops keyed by the continent factor.
fn ocean_palette() -> (r: Vec<ColorPoint>)
    ensures
        palette_wf(r@),
        r@ == ocean_stops(),
{
    let mut p: Vec<ColorPoint> = Vec::new();
    crate::terrain::push_stop(&mut p, ColorPoint::from_hex(0x000030, -13107));
    crate::terrain::push_stop(&mut p, ColorPoint::from_hex(0x000041, -6554));
    crate::terrain::push_stop(&mut p, ColorPoint::from_hex(0x35698C, -328));
    crate::terrain::push_stop(&mut p, ColorPoint::from_hex(0x40E0D0, 0));
    proof {
        assert(p@ =~= ocean_stops());
    }
    p
}

fn desert_palette() -> (r: Vec<ColorPoint>)
    ensures
        palette_wf(r@),
        r@ == desert_stops(),
{
    let mut p: Vec<ColorPoint> = Vec::new();
    crate::terrain::push_stop(&mut p, ColorPoint::from_hex(0xC2B280, 0));
    crate::terrain::push_stop(&mut p, ColorPoint::from_hex(0xEEDC82, 32768));
    crate::terrain::push_stop(&mut p, ColorPoint::from_hex(0xFFE4B5, 65536));
    proof {
        assert(p@ =~= desert_stops());
    }
    p
}

fn forest_palette() -> (r: Vec<ColorPoint>)
    ensures
        palette_wf(r@),
        r@ == forest_stops(),
{
    let mut p: Vec<ColorPoint> = Vec::new();
    crate::terrain::push_stop(&mut p, ColorPoint::from_hex(0x05400A, -65536));
    crate::terrain::push_stop(&mut p, ColorPoint::from_hex(0x527048, 0));
    crate::terrain::push_stop(&mut p, ColorPoint::from_hex(0x7CFC00, 65536));
    proof {
        assert(p@ =~= forest_stops());
    }
    p
}

fn tundra_palette() -> (r: Vec<ColorPoint>)
    ensures
        palette_wf(r@),
        r@ == tundra_stops(),
{
    let mut p: Vec<ColorPoint> = Vec::new();
    crate::terrain::push_stop(&mut p, ColorPoint::from_hex(0x9FA8A3, 0));
    crate::terrain::push_stop(&mut p, ColorPoint::from_hex(0xDCE3E1, 65536));
    proof {
        assert(p@ =~= tundra_stops());
    }
    p
}

fn rock_palette() -> (r: Vec<ColorPoint>)
    ensures
        palette_wf(r@),
        r@ == rock_stops(),
{
    let mut p: Vec<ColorPoint> = Vec::new();
    crate::terrain::push_stop(&mut p, ColorPoint::from_hex(0x000000, 0));
    crate::terrain::push_stop(&mut p, ColorPoint::from_hex(0x222222, 655));
    crate::terrain::push_stop(&mut p, ColorPoint::from_hex(0x333333, 3277));
    crate::terrain::push_stop(&mut p, ColorPoint::from_hex(0x666666, 5898));
    crate::terrain::push_stop(&mut p, ColorPoint::from_hex(0x777777, 6554));
    crate::terrain::push_stop(&mut p, ColorPoint::from_hex(0x8c8c9c, 58982));
    proof {
        assert(p@ =~= rock_stops());
    }
    p
}

fn snow_palette() -> (r: Vec<ColorPoint>)
    ensures
        palette_wf(r@),
        r@ == snow_stops(),
{
    let mut p: Vec<ColorPoint> = Vec::new();
    crate::terrain::push_stop(&mut p, ColorPoint::from_hex(0xEEEEEE, 0));
    crate::terrain::push_stop(&mut p, ColorPoint::from_hex(0xFFFFFF, 65536));
    proof {
        assert(p@ =~= snow_stops());
    }
    p
}

/// Clamp bound for normal accumulators, within what `normalize` accepts.
pub const NORMAL_ACC_LIMIT: i64 = 0x2000_0000;

/// An accumulator step: saturating addition clamped to the accumulator
/// bound.
pub open spec fn acc_add_spec(cur: int, d: int) -> int {
    let sum = crate::fixed::sat_add_spec(cur, d);
    if sum > NORMAL_ACC_LIMIT as int {
        NORMAL_ACC_LIMIT as int
    } else if sum < -NORMAL_ACC_LIMIT as int {
        -(NORMAL_ACC_LIMIT as int)
    } else {
        sum
    }
}

/// Add into a normal accumulator, clamped to the accumulator bound.
fn acc_add(cur: i64, d: i64) -> (r: i64)
    ensures
        -NORMAL_ACC_LIMIT <= r <= NORMAL_ACC_LIMIT,
        r as int == acc_add_spec(cur as int, d as int),
{
    let s = sat_add(cur, d);
    if s > NORMAL_ACC_LIMIT {
        NORMAL_ACC_LIMIT
    } else if s < -NORMAL_ACC_LIMIT {
        -NORMAL_ACC_LIMIT
    } else {
        s
    }
}

/// The face normal of one triangle: the cross product of its two edge
/// vectors, scaled down (rounding toward zero) and normalized.
pub open spec fn face_normal_spec(pa: Vec3Fx, pb: Vec3Fx, pc: Vec3Fx) -> Vec3Fx {
    let e1x = pb.x - pa.x;
    let e1y = pb.y - pa.y;
    let e1z = pb.z - pa.z;
    let e2x = pc.x - pa.x;
    let e2y = pc.y - pa.y;
    let e2z = pc.z - pa.z;
    crate::fixed::normalize_spec(
        Vec3Fx {
            x: crate::fixed::mul_div_spec(e1y * e2z - e1z * e2y, 1, 1024) as i64,
            y: crate::fixed::mul_div_spec(e1z * e2x - e1x * e2z, 1, 1024) as i64,
            z: crate::fixed::mul_div_spec(e1x * e2y - e1y * e2x, 1, 1024) as i64,
        },
    )
}

/// One triangle's face normal folded into its three corner accumulators, in
/// the order the accumulation walks them.
pub open spec fn apply_face_spec(acc: Seq<i64>, pos: Seq<i64>, ix: Seq<u32>, t: int) -> Seq<i64> {
    let i0 = ix[3 * t] as int;
    let i1 = ix[3 * t + 1] as int;
    let i2 = ix[3 * t + 2] as int;
    let f = face_normal_spec(triple_at(pos, i0), triple_at(pos, i1), triple_at(pos, i2));
    let a0 = acc.update(3 * i0, acc_add_spec(acc[3 * i0] as int, f.x as int) as i64);
    let a1 = a0.update(3 * i0 + 1, acc_add_spec(a0[3 * i0 + 1] as int, f.y as int) as i64);
    let a2 = a1.update(3 * i0 + 2, acc_add_spec(a1[3 * i0 + 2] as int, f.z as int) as i64);
    let a3 = a2.update(3 * i1, acc_add_spec(a2[3 * i1] as int, f.x as int) as i64);
    let a4 = a3.update(3 * i1 + 1, acc_add_spec(a3[3 * i1 + 1] as int, f.y as int) as i64);
    let a5 = a4.update(3 * i1 + 2, acc_add_spec(a4[3 * i1 + 2] as int, f.z as int) as i64);
    let a6 = a5.update(3 * i2, acc_add_spec(a5[3 * i2] as int, f.x as int) as i64);
    let a7 = a6.update(3 * i2 + 1, acc_add_spec(a6[3 * i2 + 1] as int, f.y as int) as i64);
    a7.update(3 * i2 + 2, acc_add_spec(a7[3 * i2 + 2] as int, f.z as int) as i64)
}

/// The accumulators after folding in the face normals of the first `t`
/// triangles, starting from zero.
pub open spec fn normals_acc_spec(pos: Seq<i64>, ix: Seq<u32>, t: int) -> Seq<i64>
    decreases t,
{
    if t <= 0 {
        Seq::new(pos.len(), |i: int| 0i64)
    } else {
        apply_face_spec(normals_acc_spec(pos, ix, t - 1), pos, ix, t - 1)
    }
}

/// The entry's normals are exactly the per-vertex normalization of the
/// accumulated face normals of its own triangles.
pub open spec fn normals_accumulated(e: PlanetVertex) -> bool {
    forall|i: int|
        0 <= i < e.position@.len() / 3 ==> #[trigger] triple_at(e.normal@, i)
            == crate::fixed::normalize_spec(
            triple_at(normals_acc_spec(e.position@, e.indice@, e.indice@.len() as int / 3), i),
        )
}

/// Per-vertex normals: accumulate the (normalized, saturating) face normal
/// of every triangle into its three corners, then normalize each
/// accumulator.  Every resulting normal lies on the unit sphere.
fn accumulate_normals(position: &Vec<i64>, indice: &Vec<u32>, vcount: usize) -> (r: Vec<i64>)
    requires
        position@.len() == 3 * vcount,
        vcount <= 0x100_0000,
        indice@.len() % 3 == 0,
        indice@.len() <= 0x1000_0000,
        indices_bounded(indice@, vcount as int),
        forall|i: int|
            0 <= i < vcount ==> coords_bounded(#[trigger] triple_at(position@, i), 2 * UNIT as int),
    ensures
        r@.len() == 3 * vcount,
        forall|i: int| 0 <= i < vcount ==> on_unit_sphere(#[trigger] triple_at(r@, i)),
        forall|i: int|
            0 <= i < vcount ==> coords_bounded(#[trigger] triple_at(r@, i), UNIT as int),
        forall|i: int|
            0 <= i < vcount ==> #[trigger] triple_at(r@, i) == crate::fixed::normalize_spec(
                triple_at(normals_acc_spec(position@, indice@, indice@.len() as int / 3), i),
            ),
{
    let mut acc: Vec<i64> = Vec::new();
    let mut j: usize = 0;
    while j < 3 * vcount
        invariant
            j <= 3 * vcount,
            vcount <= 0x100_0000,
            acc@.len() == j,
            forall|i: int| 0 <= i < j ==> #[trigger] acc@[i] == 0,
            forall|i: int| 0 <= i < j ==> -NORMAL_ACC_LIMIT <= #[trigger] acc@[i] <= NORMAL_ACC_LIMIT,
        decreases 3 * vcount - j,
    {
        acc.push(0);
        j += 1;
    }
    proof {
        assert(acc@ =~= normals_acc_spec(position@, indice@, 0));
    }
    let tcount = indice.len() / 3;
    let mut t: usize = 0;
    while t < tcount
        invariant
            t <= tcount,
            tcount == indice@.len() / 3,
            indice@.len() % 3 == 0,
            indice@.len() <= 0x1000_0000,
            vcount <= 0x100_0000,
            position@.len() == 3 * vcount,
            indices_bounded(indice@, vcount as int),
            forall|i: int|
                0 <= i < vcount ==> coords_bounded(
                    #[trigger] triple_at(position@, i),
                    2 * UNIT as int,
                ),
            acc@.len() == 3 * vcount,
            acc@ == normals_acc_spec(position@, indice@, t as int),
            forall|i: int|
                0 <= i < acc@.len() ==> -NORMAL_ACC_LIMIT <= #[trigger] acc@[i]
                    <= NORMAL_ACC_LIMIT,
        decreases tcount - t,
    {
        proof {
            assert(indice@[3 * t as int] == indice@[3 * t as int]);
            assert(((indice@[3 * t as int]) as int) < vcount as int);
            assert(((indice@[3 * t as int + 1]) as int) < vcount as int);
            assert(((indice@[3 * t as int + 2]) as int) < vcount as int);
        }
        let i0 = indice[3 * t] as usize;
        let i1 = indice[3 * t + 1] as usize;
        let i2 = indice[3 * t + 2] as usize;
        proof {
            assert(coords_bounded(triple_at(position@, i0 as int), 2 * UNIT as int));
            assert(coords_bounded(triple_at(position@, i1 as int), 2 * UNIT as int));
            assert(coords_bounded(triple_at(position@, i2 as int), 2 * UNIT as int));
        }
        let ax = position[3 * i0];
        let ay = position[3 * i0 + 1];
        let az = position[3 * i0 + 2];
        let bx = position[3 * i1];
        let by = position[3 * i1 + 1];
        let bz = position[3 * i1 + 2];
        let cx = position[3 * i2];
        let cy = position[3 * i2 + 1];
        let cz = position[3 * i2 + 2];
        let e1x = bx - ax;
        let e1y = by - ay;
        let e1z = bz - az;
        let e2x = cx - ax;
        let e2y = cy - ay;
        let e2z = cz - az;
        proof {
            assert(-0x20_0000_0000 <= e1y * e2z <= 0x20_0000_0000 && -0x20_0000_0000 <= e1z
                * e2y <= 0x20_0000_0000 && -0x20_0000_0000 <= e1z * e2x <= 0x20_0000_0000
                && -0x20_0000_0000 <= e1x * e2z <= 0x20_0000_0000 && -0x20_0000_0000 <= e1x * e2y
                <= 0x20_0000_0000 && -0x20_0000_0000 <= e1y * e2x <= 0x20_0000_0000)
                by (nonlinear_arith)
                requires
                    -0x4_0000 <= e1x <= 0x4_0000 && -0x4_0000 <= e1y <= 0x4_0000 && -0x4_0000
                        <= e1z <= 0x4_0000 && -0x4_0000 <= e2x <= 0x4_0000 && -0x4_0000 <= e2y
                        <= 0x4_0000 && -0x4_0000 <= e2z <= 0x4_0000;
        }
        proof {
            assert(abs_i((e1y * e2z - e1z * e2y) as int) * abs_i(1int) <= 0x4000_0000_0000_0000
                && abs_i((e1z * e2x - e1x * e2z) as int) * abs_i(1int) <= 0x4000_0000_0000_0000
                && abs_i((e1x * e2y - e1y * e2x) as int) * abs_i(1int) <= 0x4000_0000_0000_0000)
                by (nonlinear_arith)
                requires
                    -0x40_0000_0000 <= e1y * e2z - e1z * e2y <= 0x40_0000_0000,
                    -0x40_0000_0000 <= e1z * e2x - e1x * e2z <= 0x40_0000_0000,
                    -0x40_0000_0000 <= e1x * e2y - e1y * e2x <= 0x40_0000_0000;
        }
        let nx = crate::fixed::mul_div(e1y * e2z - e1z * e2y, 1, 1024);
        let ny = crate::fixed::mul_div(e1z * e2x - e1x * e2z, 1, 1024);
        let nz = crate::fixed::mul_div(e1x * e2y - e1y * e2x, 1, 1024);
        let fnorm = normalize(Vec3Fx { x: nx, y: ny, z: nz });
        proof {
            assert(fnorm == face_normal_spec(
                triple_at(position@, i0 as int),
                triple_at(position@, i1 as int),
                triple_at(position@, i2 as int),
            ));
        }
        let ghost acc_pre = acc@;
        let s0 = acc_add(acc[3 * i0], fnorm.x);
        acc[3 * i0] = s0;
        let s1 = acc_add(acc[3 * i0 + 1], fnorm.y);
        acc[3 * i0 + 1] = s1;
        let s2 = acc_add(acc[3 * i0 + 2], fnorm.z);
        acc[3 * i0 + 2] = s2;
        let s3 = acc_add(acc[3 * i1], fnorm.x);
        acc[3 * i1] = s3;
        let s4 = acc_add(acc[3 * i1 + 1], fnorm.y);
        acc[3 * i1 + 1] = s4;
        let s5 = acc_add(acc[3 * i1 + 2], fnorm.z);
        acc[3 * i1 + 2] = s5;
        let s6 = acc_add(acc[3 * i2], fnorm.x);
        acc[3 * i2] = s6;
        let s7 = acc_add(acc[3 * i2 + 1], fnorm.y);
        acc[3 * i2 + 1] = s7;
        let s8 = acc_add(acc[3 * i2 + 2], fnorm.z);
        acc[3 * i2 + 2] = s8;
        proof {
            assert(acc@ =~= apply_face_spec(acc_pre, position@, indice@, t as int));
            assert(acc@ == normals_acc_spec(position@, indice@, t as int + 1));
        }
        t += 1;
    }
    let mut out: Vec<i64> = Vec::new();
    let mut i: usize = 0;
    while i < vcount
        invariant
            i <= vcount,
            vcount <= 0x100_0000,
            acc@.len() == 3 * vcount,
            forall|k: int|
                0 <= k < acc@.len() ==> -NORMAL_ACC_LIMIT <= #[trigger] acc@[k]
                    <= NORMAL_ACC_LIMIT,
            out@.len() == 3 * i,
            acc@ == normals_acc_spec(position@, indice@, indice@.len() as int / 3),
            forall|k: int| 0 <= k < i ==> on_unit_sphere(#[trigger] triple_at(out@, k)),
            forall|k: int| 0 <= k < i ==> coords_bounded(#[trigger] triple_at(out@, k), UNIT as int),
            forall|k: int|
                0 <= k < i ==> #[trigger] triple_at(out@, k) == crate::fixed::normalize_spec(
                    triple_at(acc@, k),
                ),
        decreases vcount - i,
    {
        let v = normalize(Vec3Fx { x: acc[3 * i], y: acc[3 * i + 1], z: acc[3 * i + 2] });
        let ghost pre = out@;
        out.push(v.x);
        out.push(v.y);
        out.push(v.z);
        proof {
            assert(triple_at(out@, i as int) == v);
            assert(v == crate::fixed::normalize_spec(triple_at(acc@, i as int)));
            assert forall|k: int| 0 <= k < i + 1 implies on_unit_sphere(
                #[trigger] triple_at(out@, k),
            ) && coords_bounded(triple_at(out@, k), UNIT as int) by {
                if k < i {
                    assert(triple_at(pre, k) == triple_at(out@, k));
                }
            }
            assert forall|k: int| 0 <= k < i + 1 implies #[trigger] triple_at(out@, k)
                == crate::fixed::normalize_spec(triple_at(acc@, k)) by {
                if k < i {
                    assert(triple_at(pre, k) == triple_at(out@, k));
                }
            }
        }
        i += 1;
    }
    out
}


impl Planet {
    /// A planet body with the default terrain parameters and palettes, its
    /// cache empty and its maximum-detail data not yet built.
    pub fn new() -> (r: Planet)
        ensures
            r.wf(),
            r.spec_max_subdivision() == 5,
            !r.max_built(),
            forall|l: int| 0 <= l < r.cache().len() ==> (#[trigger] r.cache()[l]) is None,
            r.cache().len() == 6,
            r.spec_params().radius == UNIT,
            r.spec_params().sea_level == 65405,
            r.spec_params().height_amplitude == 3277,
            r.spec_params().continent_octaves == 3 && r.spec_params().continent_persistence
                == 32768 && r.spec_params().continent_scale == 52429,
            r.spec_params().big_mountain_octaves == 8 && r.spec_params().big_mountain_persistence
                == 45875 && r.spec_params().big_mountain_scale == 262144,
            r.spec_params().mountain_octaves == 8 && r.spec_params().mountain_persistence == 58982
                && r.spec_params().mountain_scale == 131072,
            r.spec_params().biome_octaves == 3 && r.spec_params().biome_persistence == 39322
                && r.spec_params().biome_scale == 327680,
            r.spec_params().biome_palettes@.len() == 6,
            (r.spec_params().biome_palettes@[0])@ == ocean_stops(),
            (r.spec_params().biome_palettes@[1])@ == desert_stops(),
            (r.spec_params().biome_palettes@[2])@ == forest_stops(),
            (r.spec_params().biome_palettes@[3])@ == tundra_stops(),
            (r.spec_params().biome_palettes@[4])@ == rock_stops(),
            (r.spec_params().biome_palettes@[5])@ == snow_stops(),
    {
        let mut palettes: Vec<Vec<ColorPoint>> = Vec::new();
        palettes.push(ocean_palette());
        palettes.push(desert_palette());
        palettes.push(forest_palette());
        palettes.push(tundra_palette());
        palettes.push(rock_palette());
        palettes.push(snow_palette());
        proof {
            assert forall|j: int| 0 <= j < 6 implies palette_wf((#[trigger] palettes@[j])@) by {}
        }
        let params = TerrainParams {
            radius: UNIT,
            sea_level: 65405,
            height_amplitude: 3277,
            continent_octaves: 3,
            continent_persistence: 32768,
            continent_scale: 52429,
            big_mountain_octaves: 8,
            big_mountain_persistence: 45875,
            big_mountain_scale: 262144,
            mountain_octaves: 8,
            mountain_persistence: 58982,
            mountain_scale: 131072,
            biome_octaves: 3,
            biome_persistence: 39322,
            biome_scale: 327680,
            biome_palettes: palettes,
        };
        let mut levels: Vec<Option<PlanetVertex>> = Vec::new();
        let mut i: usize = 0;
        while i < 6
            invariant
                i <= 6,
                levels@.len() == i,
                forall|l: int| 0 <= l < i ==> (#[trigger] levels@[l]) is None,
            decreases 6 - i,
        {
            levels.push(None);
            i += 1;
        }
        Planet {
            max_subdivision: 5,
            params,
            noise: NoiseField::new(),
            lod_max_solid: None,
            lod_max_vertices: Vec::new(),
            lod_max_colors: Vec::new(),
            kd_tree_max: None,
            lod_levels: levels,
        }
    }

    /// Build the maximum-detail mesh, its terrain arrays and the spatial
    /// index.  Runs once per body; the cache is untouched.
    fn build_max(&mut self)
        requires
            old(self).wf(),
            !old(self).max_built(),
        ensures
            final(self).wf(),
            final(self).max_built(),
            final(self).lod_levels == old(self).lod_levels,
            final(self).max_subdivision == old(self).max_subdivision,
            final(self).params == old(self).params,
            final(self).noise == old(self).noise,
    {
        let mut solid = IcoSphere::new();
        solid.generate(self.max_subdivision);
        proof {
            lemma_pow4_monotone(self.max_subdivision as nat, 8);
            reveal_with_fuel(pow4, 9);
            assert(pow4(8) == 65536);
        }
        let n = solid.vertices.len();
        let mut pos: Vec<Vec3Fx> = Vec::new();
        let mut cols: Vec<Vec3Fx> = Vec::new();
        let mut i: usize = 0;
        while i < n
            invariant
                i <= n,
                self.params.wf(),
                self.noise.wf(),
                solid.wf(),
                n == solid.vertices@.len(),
                pos@.len() == i,
                cols@.len() == i,
                forall|j: int|
                    0 <= j < i ==> #[trigger] pos@[j] == vertex_pos_spec(
                        self.params,
                        self.noise.table(),
                        solid.vertices@[j],
                    ) && cols@[j] == vertex_color_spec(
                        self.params,
                        self.noise.table(),
                        solid.vertices@[j],
                    ),
                forall|j: int|
                    0 <= j < i ==> coords_bounded(#[trigger] pos@[j], 2 * UNIT as int)
                        && color_in_range(cols@[j]),
            decreases n - i,
        {
            let v = solid.vertices[i];
            let (p, c) = compute_vertex_data(&self.params, &self.noise, v);
            pos.push(p);
            cols.push(c);
            i += 1;
        }
        proof {
            assert forall|j: int| 0 <= j < solid.vertices@.len() implies coords_bounded(
                #[trigger] solid.vertices@[j],
                KD_COORD_LIMIT as int,
            ) by {}
        }
        let tree = KDTree3D::new(&solid.vertices);
        self.lod_max_vertices = pos;
        self.lod_max_colors = cols;
        self.kd_tree_max = Some(tree);
        self.lod_max_solid = Some(solid);
    }

    /// Build the vertex data of one level from the maximum-detail data: a
    /// fresh icosphere at the level, each vertex resampled to the nearest
    /// maximum-detail vertex, and normals accumulated over its triangles.
    #[verifier::rlimit(100)]
    fn resample_level(&self, level: u32) -> (r: PlanetVertex)
        requires
            self.wf(),
            self.max_built(),
            level <= self.max_subdivision,
        ensures
            entry_wf(r, level as nat),
            resampled_from(r, self.lod_max_vertices@, self.lod_max_colors@),
            resampled_nearest(
                r,
                level as nat,
                self.spec_max_subdivision() as nat,
                self.lod_max_vertices@,
                self.lod_max_colors@,
            ),
            normals_accumulated(r),
            level == self.spec_max_subdivision() ==> copies_max(
                r,
                self.lod_max_vertices@,
                self.lod_max_colors@,
            ),
    {
        if level == self.max_subdivision {
            return self.entry_from_max();
        }
        let mut sub = IcoSphere::new();
        sub.generate(level);
        proof {
            lemma_pow4_monotone(level as nat, 8);
            reveal_with_fuel(pow4, 9);
            assert(pow4(8) == 65536);
        }
        let n = sub.vertices.len();
        let tree = match &self.kd_tree_max {
            Some(t) => t,
            None => {
                proof {
                    assert(false);
                }
                vstd::pervasive::unreached()
            },
        };
        let mut position: Vec<i64> = Vec::new();
        let mut color: Vec<i64> = Vec::new();
        let mut i: usize = 0;
        while i < n
            invariant
                i <= n,
                n <= 0x100_0000,
                n == sub.vertices@.len(),
                sub.vertices@ == crate::ico::mesh_level_spec(level as nat).0,
                forall|k: int|
                    0 <= k < n ==> coords_bounded(#[trigger] sub.vertices@[k], UNIT as int),
                tree.wf(),
                tree.points() == crate::ico::mesh_level_spec(
                    self.spec_max_subdivision() as nat,
                ).0,
                tree.points().len() == self.lod_max_vertices@.len(),
                tree.points().len() > 0,
                self.lod_max_colors@.len() == self.lod_max_vertices@.len(),
                forall|j: int|
                    0 <= j < self.lod_max_vertices@.len() ==> coords_bounded(
                        #[trigger] self.lod_max_vertices@[j],
                        2 * UNIT as int,
                    ) && color_in_range(self.lod_max_colors@[j]),
                position@.len() == 3 * i,
                color@.len() == 3 * i,
                forall|k: int|
                    0 <= k < i ==> #[trigger] nearest_for_sample(
                        position@,
                        color@,
                        k,
                        crate::ico::mesh_level_spec(level as nat).0,
                        crate::ico::mesh_level_spec(self.spec_max_subdivision() as nat).0,
                        self.lod_max_vertices@,
                        self.lod_max_colors@,
                    ),
                forall|k: int|
                    0 <= k < i ==> coords_bounded(#[trigger] triple_at(position@, k), 2 * UNIT as int),
                forall|k: int| 0 <= k < i ==> color_in_range(#[trigger] triple_at(color@, k)),
            decreases n - i,
        {
            let v = sub.vertices[i];
            let jn = tree.nearest_neighbor(v);
            proof {
                assert(tree.points().len() > 0);
            }
            let pv = self.lod_max_vertices[jn];
            let cv = self.lod_max_colors[jn];
            let ghost pre_p = position@;
            let ghost pre_c = color@;
            position.push(pv.x);
            position.push(pv.y);
            position.push(pv.z);
            color.push(cv.x);
            color.push(cv.y);
            color.push(cv.z);
            proof {
                let ghost verts = self.lod_max_vertices@;
                let ghost cols = self.lod_max_colors@;
                let ghost samples = crate::ico::mesh_level_spec(level as nat).0;
                let ghost unit_max = crate::ico::mesh_level_spec(
                    self.spec_max_subdivision() as nat,
                ).0;
                assert(triple_at(position@, i as int) == pv);
                assert(triple_at(color@, i as int) == cv);
                assert forall|k: int| 0 <= k < i + 1 implies #[trigger] nearest_for_sample(
                    position@,
                    color@,
                    k,
                    samples,
                    unit_max,
                    verts,
                    cols,
                ) by {
                    if k < i {
                        assert(nearest_for_sample(pre_p, pre_c, k, samples, unit_max, verts, cols));
                        let j = choose|j: int|
                            0 <= j < verts.len() && 0 <= j < unit_max.len() && triple_at(pre_p, k)
                                == #[trigger] verts[j] && triple_at(pre_c, k) == cols[j] && (
                            forall|m: int|
                                0 <= m < unit_max.len() ==> crate::kdtree::dist_sq(
                                    unit_max[j],
                                    samples[k],
                                ) <= crate::kdtree::dist_sq(#[trigger] unit_max[m], samples[k]));
                        assert(triple_at(position@, k) == triple_at(pre_p, k));
                        assert(triple_at(color@, k) == triple_at(pre_c, k));
                        assert(triple_at(position@, k) == verts[j] && triple_at(color@, k)
                            == cols[j]);
                    } else {
                        assert(verts[jn as int] == pv && cols[jn as int] == cv);
                        assert(triple_at(position@, k) == verts[jn as int] && triple_at(color@, k)
                            == cols[jn as int]);
                        assert(samples[k] == v);
                        assert forall|m: int| 0 <= m < unit_max.len() implies crate::kdtree::dist_sq(
                            unit_max[jn as int],
                            samples[k],
                        ) <= crate::kdtree::dist_sq(#[trigger] unit_max[m], samples[k]) by {
                            assert(crate::kdtree::dist_sq(tree.points()[jn as int], v)
                                <= crate::kdtree::dist_sq(tree.points()[m], v));
                        }
                    }
                }
                assert forall|k: int| 0 <= k < i + 1 implies coords_bounded(
                    #[trigger] triple_at(position@, k),
                    2 * UNIT as int,
                ) by {
                    if k < i {
                        assert(triple_at(pre_p, k) == triple_at(position@, k));
                    }
                }
                assert forall|k: int| 0 <= k < i + 1 implies color_in_range(
                    #[trigger] triple_at(color@, k),
                ) by {
                    if k < i {
                        assert(triple_at(pre_c, k) == triple_at(color@, k));
                    }
                }
            }
            i += 1;
        }
        let indice = clone_indices(&sub.indices);
        let normal = accumulate_normals(&position, &indice, n);
        let ghost pfin = position@;
        let ghost cfin = color@;
        let r = PlanetVertex { position, color, normal, indice };
        proof {
            assert(r.position@ == pfin && r.color@ == cfin);
            lemma_resample_exit(
                pfin,
                cfin,
                crate::ico::mesh_level_spec(level as nat).0,
                crate::ico::mesh_level_spec(self.spec_max_subdivision() as nat).0,
                self.lod_max_vertices@,
                self.lod_max_colors@,
                n as int,
            );
        }
        r
    }


    /// The entry for the maximum level itself: the stored maximum-detail
    /// mesh is reused directly, with no resampling.
    #[verifier::rlimit(100)]
    fn entry_from_max(&self) -> (r: PlanetVertex)
        requires
            self.wf(),
            self.max_built(),
        ensures
            entry_wf(r, self.spec_max_subdivision() as nat),
            copies_max(r, self.lod_max_vertices@, self.lod_max_colors@),
            resampled_from(r, self.lod_max_vertices@, self.lod_max_colors@),
            resampled_nearest(
                r,
                self.spec_max_subdivision() as nat,
                self.spec_max_subdivision() as nat,
                self.lod_max_vertices@,
                self.lod_max_colors@,
            ),
            normals_accumulated(r),
    {
        let solid = match &self.lod_max_solid {
            Some(sld) => sld,
            None => vstd::pervasive::unreached(),
        };
        proof {
            lemma_pow4_monotone(self.max_subdivision as nat, 8);
            reveal_with_fuel(pow4, 9);
            assert(pow4(8) == 65536);
        }
        let n = self.lod_max_vertices.len();
        let mut position: Vec<i64> = Vec::new();
        let mut color: Vec<i64> = Vec::new();
        let mut i: usize = 0;
        while i < n
            invariant
                i <= n,
                n <= 0x100_0000,
                n == self.lod_max_vertices@.len(),
                n == self.lod_max_colors@.len(),
                forall|j: int|
                    0 <= j < n ==> coords_bounded(
                        #[trigger] self.lod_max_vertices@[j],
                        2 * UNIT as int,
                    ) && color_in_range(self.lod_max_colors@[j]),
                position@.len() == 3 * i,
                color@.len() == 3 * i,
                forall|k: int|
                    0 <= k < i ==> #[trigger] triple_at(position@, k) == self.lod_max_vertices@[k]
                        && triple_at(color@, k) == self.lod_max_colors@[k],
                forall|k: int|
                    0 <= k < i ==> coords_bounded(
                        #[trigger] triple_at(position@, k),
                        2 * UNIT as int,
                    ),
                forall|k: int| 0 <= k < i ==> color_in_range(#[trigger] triple_at(color@, k)),
            decreases n - i,
        {
            let pv = self.lod_max_vertices[i];
            let cv = self.lod_max_colors[i];
            let ghost pre_p = position@;
            let ghost pre_c = color@;
            position.push(pv.x);
            position.push(pv.y);
            position.push(pv.z);
            color.push(cv.x);
            color.push(cv.y);
            color.push(cv.z);
            proof {
                assert(triple_at(position@, i as int) == pv);
                assert(triple_at(color@, i as int) == cv);
                assert forall|k: int| 0 <= k < i + 1 implies #[trigger] triple_at(position@, k)
                    == self.lod_max_vertices@[k] && triple_at(color@, k)
                    == self.lod_max_colors@[k] by {
                    if k < i {
                        assert(triple_at(pre_p, k) == triple_at(position@, k));
                        assert(triple_at(pre_c, k) == triple_at(color@, k));
                    }
                }
                assert forall|k: int| 0 <= k < i + 1 implies coords_bounded(
                    #[trigger] triple_at(position@, k),
                    2 * UNIT as int,
                ) by {
                    if k < i {
                        assert(triple_at(pre_p, k) == triple_at(position@, k));
                    }
                }
                assert forall|k: int| 0 <= k < i + 1 implies color_in_range(
                    #[trigger] triple_at(color@, k),
                ) by {
                    if k < i {
                        assert(triple_at(pre_c, k) == triple_at(color@, k));
                    }
                }
            }
            i += 1;
        }
        let indice = clone_indices(&solid.indices);
        let normal = accumulate_normals(&position, &indice, n);
        let ghost pfin = position@;
        let ghost cfin = color@;
        let r = PlanetVertex { position, color, normal, indice };
        proof {
            let verts = self.lod_max_vertices@;
            let cols = self.lod_max_colors@;
            let ghost um = crate::ico::mesh_level_spec(self.spec_max_subdivision() as nat).0;
            assert(r.position@ == pfin && r.color@ == cfin);
            assert(verts.len() == um.len());
            assert forall|k: int| 0 <= k < r.position@.len() / 3 implies
                #[trigger] carries_max_vertex(r.position@, r.color@, k, verts, cols) by {
                assert(triple_at(pfin, k) == self.lod_max_vertices@[k]);
                assert(triple_at(cfin, k) == self.lod_max_colors@[k]);
                assert(triple_at(r.position@, k) == verts[k] && triple_at(r.color@, k) == cols[k]);
            }
            assert forall|k: int| 0 <= k < r.position@.len() / 3 implies
                #[trigger] nearest_for_sample(r.position@, r.color@, k, um, um, verts, cols) by {
                assert(triple_at(pfin, k) == self.lod_max_vertices@[k]);
                assert(triple_at(cfin, k) == self.lod_max_colors@[k]);
                assert(triple_at(r.position@, k) == verts[k] && triple_at(r.color@, k) == cols[k]);
                assert forall|m: int| 0 <= m < um.len() implies crate::kdtree::dist_sq(
                    um[k],
                    um[k],
                ) <= crate::kdtree::dist_sq(#[trigger] um[m], um[k]) by {
                    crate::kdtree::lemma_dist_sq_nonneg(um[k], um[k]);
                    crate::kdtree::lemma_dist_sq_nonneg(um[m], um[k]);
                }
            }
        }
        r
    }

    /// Generate the vertex data for one level of detail.
    ///
    /// A level above the configured maximum is rejected and nothing
    /// changes.  A level already in the cache is served from it and nothing
    /// changes.  Otherwise the maximum-detail data is built if this is the
    /// first request, the level is resampled from it, and the cache gains
    /// exactly that one entry.
    pub fn generate(&mut self, subdivision: u32) -> (r: Result<(), GeometryError>)
        requires
            old(self).wf(),
        ensures
            final(self).wf(),
            r is Err <==> subdivision > old(self).spec_max_subdivision(),
            r is Err ==> r == Result::<(), GeometryError>::Err(GeometryError::LevelOutOfRange)
                && *final(self) == *old(self),
            subdivision <= old(self).spec_max_subdivision() && old(self).level_cached(
                subdivision as int,
            ) ==> *final(self) == *old(self),
            final(self).spec_max_subdivision() == old(self).spec_max_subdivision(),
            final(self).spec_params() == old(self).spec_params(),
            final(self).table() == old(self).table(),
            r is Ok ==> final(self).level_cached(subdivision as int),
            r is Ok ==> final(self).max_built(),
            old(self).max_built() ==> final(self).max_built() && final(self).max_mesh_data()
                == old(self).max_mesh_data(),
            forall|l: int|
                0 <= l < old(self).cache().len() && l != subdivision ==> final(self).cache()[l]
                    == #[trigger] old(self).cache()[l],
            r is Ok && !old(self).level_cached(subdivision as int) ==> (final(self).cache()[
                subdivision as int
            ] matches Some(e) && entry_wf(e, subdivision as nat) && resampled_from(
                e,
                final(self).max_vertices(),
                final(self).max_colors(),
            ) && resampled_nearest(
                e,
                subdivision as nat,
                old(self).spec_max_subdivision() as nat,
                final(self).max_vertices(),
                final(self).max_colors(),
            ) && normals_accumulated(e) && (subdivision == old(self).spec_max_subdivision()
                ==> copies_max(
                e,
                final(self).max_vertices(),
                final(self).max_colors(),
            ))),
    {
        if subdivision > self.max_subdivision {
            return Err(GeometryError::LevelOutOfRange);
        }
        let idx = subdivision as usize;
        let hit = match &self.lod_levels[idx] {
            Some(_) => true,
            None => false,
        };
        if hit {
            return Ok(());
        }
        if match &self.lod_max_solid {
            Some(_) => false,
            None => true,
        } {
            self.build_max();
        }
        let entry = self.resample_level(subdivision);
        let slot = &mut self.lod_levels[idx];
        *slot = Some(entry);
        proof {
            assert forall|l: int| 0 <= l < self.lod_levels@.len() implies ((
            #[trigger] self.lod_levels@[l]) matches Some(e) ==> entry_wf(e, l as nat)) by {
                if l != idx {
                    assert(self.lod_levels@[l] == old(self).lod_levels@[l]);
                }
            }
        }
        Ok(())
    }

    /// The maximum-detail mesh, terrain arrays and index, for unchanged-ness
    /// statements.
    pub closed spec fn max_mesh_data(self) -> (
        Option<IcoSphere>,
        Seq<Vec3Fx>,
        Seq<Vec3Fx>,
        Option<KDTree3D>,
    ) {
        (self.lod_max_solid, self.lod_max_vertices@, self.lod_max_colors@, self.kd_tree_max)
    }

    /// The displaced positions of the maximum-detail vertices.
    pub closed spec fn max_vertices(self) -> Seq<Vec3Fx> {
        self.lod_max_vertices@
    }

    /// The colors of the maximum-detail vertices.
    pub closed spec fn max_colors(self) -> Seq<Vec3Fx> {
        self.lod_max_colors@
    }
}

/// Copy a triangle index list.
fn clone_indices(ix: &Vec<u32>) -> (r: Vec<u32>)
    ensures
        r@ == ix@,
{
    let mut r: Vec<u32> = Vec::new();
    let mut i: usize = 0;
    while i < ix.len()
        invariant
            i <= ix@.len(),
            r@ == ix@.subrange(0, i as int),
        decreases ix@.len() - i,
    {
        r.push(ix[i]);
        i += 1;
    }
    proof {
        assert(r@ =~= ix@);
    }
    r
}


impl Planet {
    /// Whether the maximum-detail data has been built yet.
    pub fn is_max_built(&self) -> (r: bool)
        ensures
            r == self.max_built(),
    {
        match &self.lod_max_solid {
            Some(_) => true,
            None => false,
        }
    }

    /// The configured maximum subdivision level.
    pub fn max_level(&self) -> (r: u32)
        ensures
            r == self.spec_max_subdivision(),
            self.wf() ==> r <= 8,
    {
        self.max_subdivision
    }

    /// The cached entry of a level, as the contracts see it.
    pub closed spec fn entry_at(self, l: int) -> PlanetVertex {
        match self.lod_levels@[l] {
            Option::Some(e) => e,
            Option::None => vstd::pervasive::arbitrary(),
        }
    }

    /// The flattened vertex positions of a completed level.
    pub fn get_positions(&self, lod_level: usize) -> (r: &Vec<i64>)
        requires
            self.wf(),
            self.level_cached(lod_level as int),
        ensures
            r@ == self.entry_at(lod_level as int).position@,
            r@.len() == 3 * vertex_count_spec(lod_level as nat),
    {
        match &self.lod_levels[lod_level] {
            Some(e) => &e.position,
            None => vstd::pervasive::unreached(),
        }
    }

    /// The flattened vertex colors of a completed level.
    pub fn get_colors(&self, lod_level: usize) -> (r: &Vec<i64>)
        requires
            self.wf(),
            self.level_cached(lod_level as int),
        ensures
            r@ == self.entry_at(lod_level as int).color@,
            r@.len() == 3 * vertex_count_spec(lod_level as nat),
    {
        match &self.lod_levels[lod_level] {
            Some(e) => &e.color,
            None => vstd::pervasive::unreached(),
        }
    }

    /// The flattened vertex normals of a completed level.
    pub fn get_normals(&self, lod_level: usize) -> (r: &Vec<i64>)
        requires
            self.wf(),
            self.level_cached(lod_level as int),
        ensures
            r@ == self.entry_at(lod_level as int).normal@,
            r@.len() == 3 * vertex_count_spec(lod_level as nat),
    {
        match &self.lod_levels[lod_level] {
            Some(e) => &e.normal,
            None => vstd::pervasive::unreached(),
        }
    }

    /// The triangle index list of a completed level.
    pub fn get_indices(&self, lod_level: usize) -> (r: &Vec<u32>)
        requires
            self.wf(),
            self.level_cached(lod_level as int),
        ensures
            r@ == self.entry_at(lod_level as int).indice@,
            r@.len() == index_count_spec(lod_level as nat),
    {
        match &self.lod_levels[lod_level] {
            Some(e) => &e.indice,
            None => vstd::pervasive::unreached(),
        }
    }

    /// The vertex count of a completed level: exactly `10*4^l + 2`.
    pub fn get_vertex_count(&self, lod_level: usize) -> (r: usize)
        requires
            self.wf(),
            self.level_cached(lod_level as int),
        ensures
            r == vertex_count_spec(lod_level as nat),
    {
        self.get_positions(lod_level).len() / 3
    }

    /// The index count of a completed level: exactly `60*4^l`.
    pub fn get_index_count(&self, lod_level: usize) -> (r: usize)
        requires
            self.wf(),
            self.level_cached(lod_level as int),
        ensures
            r == index_count_spec(lod_level as nat),
    {
        self.get_indices(lod_level).len()
    }
}

/// The flat star color: each vertex is colored `(0.7, 0.3, 0.3)`.
pub const STAR_COLOR_R: i64 = 45875;

/// Green channel of the flat star color.
pub const STAR_COLOR_G: i64 = 19661;

/// Blue channel of the flat star color.
pub const STAR_COLOR_B: i64 = 19661;

/// Completed vertex data of one star level: positions and the flat color,
/// no normals (stars render unlit).
pub struct StarVertex {
    pub position: Vec<i64>,
    pub color: Vec<i64>,
    pub indice: Vec<u32>,
}

impl StarVertex {
    pub fn new() -> (r: StarVertex)
        ensures
            r.position@.len() == 0,
            r.color@.len() == 0,
            r.indice@.len() == 0,
    {
        StarVertex { position: Vec::new(), color: Vec::new(), indice: Vec::new() }
    }
}

/// A completed star level: unit-sphere positions, the flat color on every
/// vertex, and the level's exact counts.
pub open spec fn star_entry_wf(e: StarVertex, l: nat) -> bool {
    &&& e.position@.len() == 3 * vertex_count_spec(l)
    &&& e.color@.len() == 3 * vertex_count_spec(l)
    &&& e.indice@.len() == index_count_spec(l)
    &&& indices_bounded(e.indice@, vertex_count_spec(l) as int)
    &&& e.indice@ == crate::ico::mesh_level_spec(l).1
    &&& forall|i: int|
        0 <= i < vertex_count_spec(l) ==> #[trigger] triple_at(e.position@, i)
            == crate::ico::mesh_level_spec(l).0[i]
    &&& forall|i: int|
        0 <= i < vertex_count_spec(l) ==> on_unit_sphere(#[trigger] triple_at(e.position@, i))
    &&& forall|i: int|
        0 <= i < vertex_count_spec(l) ==> #[trigger] triple_at(e.color@, i) == (Vec3Fx {
            x: STAR_COLOR_R,
            y: STAR_COLOR_G,
            z: STAR_COLOR_B,
        })
}

/// A star body: flat-shaded icosphere levels, cached once generated.
pub struct StarGeometry {
    pub max_subdivision: u32,
    pub lod_content: Vec<Option<StarVertex>>,
}

impl StarGeometry {
    /// The configured maximum subdivision level, as the contracts see it.
    pub open spec fn spec_max_subdivision(self) -> u32 {
        self.max_subdivision
    }

    /// Structural invariant of a star body.
    pub open spec fn wf(self) -> bool {
        &&& self.max_subdivision <= 8
        &&& self.lod_content@.len() == self.max_subdivision + 1
        &&& forall|l: int|
            0 <= l < self.lod_content@.len() ==> ((#[trigger] self.lod_content@[l]) matches Some(e)
                ==> star_entry_wf(e, l as nat))
    }

    /// Whether the cache already holds the given level.
    pub open spec fn level_cached(self, level: int) -> bool {
        0 <= level < self.lod_content@.len() && self.lod_content@[level] is Some
    }

    /// The cached entry of a level, as the contracts see it.
    pub open spec fn entry_at(self, l: int) -> StarVertex {
        match self.lod_content@[l] {
            Option::Some(e) => e,
            Option::None => vstd::pervasive::arbitrary(),
        }
    }

    /// A star body with an empty cache.
    pub fn new() -> (r: StarGeometry)
        ensures
            r.wf(),
            r.spec_max_subdivision() == 4,
            forall|l: int| 0 <= l < r.lod_content@.len() ==> (#[trigger] r.lod_content@[l]) is None,
    {
        let mut levels: Vec<Option<StarVertex>> = Vec::new();
        let mut i: usize = 0;
        while i < 5
            invariant
                i <= 5,
                levels@.len() == i,
                forall|l: int| 0 <= l < i ==> (#[trigger] levels@[l]) is None,
            decreases 5 - i,
        {
            levels.push(None);
            i += 1;
        }
        StarGeometry { max_subdivision: 4, lod_content: levels }
    }

    /// Generate the vertex data for one level of detail of the star: the
    /// icosphere positions with the flat color, no normal computation.
    pub fn generate(&mut self, subdivision: u32) -> (r: Result<(), GeometryError>)
        requires
            old(self).wf(),
        ensures
            final(self).wf(),
            r is Err <==> subdivision > old(self).spec_max_subdivision(),
            r is Err ==> r == Result::<(), GeometryError>::Err(GeometryError::LevelOutOfRange)
                && *final(self) == *old(self),
            subdivision <= old(self).spec_max_subdivision() && old(self).level_cached(
                subdivision as int,
            ) ==> *final(self) == *old(self),
            final(self).spec_max_subdivision() == old(self).spec_max_subdivision(),
            r is Ok ==> final(self).level_cached(subdivision as int),
            forall|l: int|
                0 <= l < old(self).lod_content@.len() && l != subdivision
                    ==> final(self).lod_content@[l] == #[trigger] old(self).lod_content@[l],
            r is Ok ==> (final(self).lod_content@[subdivision as int] matches Some(e)
                && star_entry_wf(e, subdivision as nat)),
    {
        if subdivision > self.max_subdivision {
            return Err(GeometryError::LevelOutOfRange);
        }
        let idx = subdivision as usize;
        let hit = match &self.lod_content[idx] {
            Some(_) => true,
            None => false,
        };
        if hit {
            return Ok(());
        }
        let mut solid = IcoSphere::new();
        solid.generate(subdivision);
        proof {
            lemma_pow4_monotone(subdivision as nat, 8);
            reveal_with_fuel(pow4, 9);
            assert(pow4(8) == 65536);
        }
        let n = solid.vertices.len();
        let mut position: Vec<i64> = Vec::new();
        let mut color: Vec<i64> = Vec::new();
        let mut i: usize = 0;
        while i < n
            invariant
                i <= n,
                n <= 0x100_0000,
                n == solid.vertices@.len(),
                solid.vertices@ == crate::ico::mesh_level_spec(subdivision as nat).0,
                solid.indices@ == crate::ico::mesh_level_spec(subdivision as nat).1,
                forall|k: int| 0 <= k < n ==> on_unit_sphere(#[trigger] solid.vertices@[k]),
                position@.len() == 3 * i,
                color@.len() == 3 * i,
                forall|k: int|
                    0 <= k < i ==> #[trigger] triple_at(position@, k) == solid.vertices@[k],
                forall|k: int|
                    0 <= k < i ==> on_unit_sphere(#[trigger] triple_at(position@, k)),
                forall|k: int|
                    0 <= k < i ==> #[trigger] triple_at(color@, k) == (Vec3Fx {
                        x: STAR_COLOR_R,
                        y: STAR_COLOR_G,
                        z: STAR_COLOR_B,
                    }),
            decreases n - i,
        {
            let v = solid.vertices[i];
            let ghost pre_p = position@;
            let ghost pre_c = color@;
            position.push(v.x);
            position.push(v.y);
            position.push(v.z);
            color.push(STAR_COLOR_R);
            color.push(STAR_COLOR_G);
            color.push(STAR_COLOR_B);
            proof {
                assert(triple_at(position@, i as int) == v);
                assert forall|k: int| 0 <= k < i + 1 implies #[trigger] triple_at(position@, k)
                    == solid.vertices@[k] by {
                    if k < i {
                        assert(triple_at(pre_p, k) == triple_at(position@, k));
                    }
                }
                assert forall|k: int| 0 <= k < i + 1 implies on_unit_sphere(
                    #[trigger] triple_at(position@, k),
                ) by {
                    if k < i {
                        assert(triple_at(pre_p, k) == triple_at(position@, k));
                    }
                }
                assert forall|k: int| 0 <= k < i + 1 implies #[trigger] triple_at(color@, k)
                    == (Vec3Fx { x: STAR_COLOR_R, y: STAR_COLOR_G, z: STAR_COLOR_B }) by {
                    if k < i {
                        assert(triple_at(pre_c, k) == triple_at(color@, k));
                    } else {
                        assert(triple_at(color@, k) == (Vec3Fx {
                            x: STAR_COLOR_R,
                            y: STAR_COLOR_G,
                            z: STAR_COLOR_B,
                        }));
                    }
                }
            }
            i += 1;
        }
        let entry = StarVertex { position, color, indice: clone_indices(&solid.indices) };
        let slot = &mut self.lod_content[idx];
        *slot = Some(entry);
        proof {
            assert forall|l: int| 0 <= l < self.lod_content@.len() implies ((
            #[trigger] self.lod_content@[l]) matches Some(e) ==> star_entry_wf(e, l as nat)) by {
                if l != idx {
                    assert(self.lod_content@[l] == old(self).lod_content@[l]);
                }
            }
        }
        Ok(())
    }

    /// The triangle index list of a completed star level.
    pub fn get_indices(&self, lod_level: usize) -> (r: &Vec<u32>)
        requires
            self.wf(),
            self.level_cached(lod_level as int),
        ensures
            r@.len() == index_count_spec(lod_level as nat),
    {
        match &self.lod_content[lod_level] {
            Some(e) => &e.indice,
            None => vstd::pervasive::unreached(),
        }
    }
}

} // verus!
