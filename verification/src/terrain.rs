//! Terrain synthesis: per-vertex displaced radius and biome-blended color,
//! driven entirely by the layered noise field.
//!
//! Every function here is a pure function of the parameters, the noise
//! table and the vertex, mirrored exactly by a spec-level definition, so a
//! vertex computed once for the maximum-detail mesh can be reused verbatim
//! for every coarser level.

use vstd::prelude::*;
use crate::fixed::Vec3Fx;
use crate::fixed::UNIT;
use crate::fixed::abs_i;
use crate::fixed::mul_div;
use crate::fixed::mul_div_spec;
use crate::fixed::coords_bounded;
use crate::noise::NoiseField;
use crate::noise::fbm_spec;

verus! {

/// A palette stop: a color at a key along the noise axis.
#[derive(Clone, Copy, Debug, PartialEq, Eq, Structural)]
pub struct ColorPoint {
    pub color: Vec3Fx,
    pub key: i64,
}

impl ColorPoint {
    pub fn new(color: Vec3Fx, key: i64) -> (r: ColorPoint)
        ensures
            r.color == color,
            r.key == key,
    {
        ColorPoint { color, key }
    }

    /// A palette stop from a packed `0xRRGGBB` color, each channel scaled
    /// into `[0, UNIT]`.
    pub fn from_hex(hex: u32, key: i64) -> (r: ColorPoint)
        ensures
            r.color == hex_color_spec(hex),
            r.key == key,
            color_in_range(r.color),
    {
        let cr = ((((hex >> 16) & 0xFF) as i64) * UNIT) / 255;
        let cg = ((((hex >> 8) & 0xFF) as i64) * UNIT) / 255;
        let cb = (((hex & 0xFF) as i64) * UNIT) / 255;
        proof {
            assert((hex >> 16) & 0xFF <= 0xFF && (hex >> 8) & 0xFF <= 0xFF && hex & 0xFF <= 0xFF)
                by (bit_vector);
        }
        ColorPoint { color: Vec3Fx { x: cr, y: cg, z: cb }, key }
    }
}

/// The color encoded by a packed `0xRRGGBB` value.
pub open spec fn hex_color_spec(hex: u32) -> Vec3Fx {
    Vec3Fx {
        x: (((((hex >> 16) & 0xFF) as int) * (UNIT as int)) / 255) as i64,
        y: (((((hex >> 8) & 0xFF) as int) * (UNIT as int)) / 255) as i64,
        z: ((((hex & 0xFF) as int) * (UNIT as int)) / 255) as i64,
    }
}

/// Every channel lies in `[0, UNIT]`.
pub open spec fn color_in_range(c: Vec3Fx) -> bool {
    &&& 0 <= c.x <= UNIT
    &&& 0 <= c.y <= UNIT
    &&& 0 <= c.z <= UNIT
}

/// Keys strictly increasing and bounded, colors in range.
pub open spec fn palette_sorted(p: Seq<ColorPoint>) -> bool {
    &&& p.len() <= 16
    &&& forall|i: int| 0 <= i < p.len() - 1 ==> (#[trigger] p[i]).key < p[i + 1].key
    &&& forall|i: int| 0 <= i < p.len() ==> color_in_range((#[trigger] p[i]).color)
    &&& forall|i: int| 0 <= i < p.len() ==> -0x10_0000 <= (#[trigger] p[i]).key <= 0x10_0000
}

/// An ordered palette: at least one stop, keys strictly increasing, colors
/// in range.
pub open spec fn palette_wf(p: Seq<ColorPoint>) -> bool {
    &&& p.len() >= 1
    &&& palette_sorted(p)
}

/// Append a palette stop whose key lies beyond the current last one.
pub fn push_stop(p: &mut Vec<ColorPoint>, c: ColorPoint)
    requires
        palette_sorted(old(p)@),
        old(p)@.len() < 16,
        color_in_range(c.color),
        -0x10_0000 <= c.key <= 0x10_0000,
        old(p)@.len() > 0 ==> old(p)@.last().key < c.key,
    ensures
        final(p)@ == old(p)@.push(c),
        palette_sorted(final(p)@),
        palette_wf(final(p)@),
{
    let ghost pre = p@;
    p.push(c);
    proof {
        assert forall|i: int| 0 <= i < p@.len() - 1 implies (#[trigger] p@[i]).key < p@[i + 1].key
            by {
            if i < pre.len() - 1 {
                assert(p@[i] == pre[i] && p@[i + 1] == pre[i + 1]);
            } else {
                assert(p@[i] == pre.last() && p@[i + 1] == c);
            }
        }
        assert forall|i: int| 0 <= i < p@.len() implies color_in_range((#[trigger] p@[i]).color)
            && -0x10_0000 <= p@[i].key <= 0x10_0000 by {
            if i < pre.len() {
                assert(p@[i] == pre[i]);
            }
        }
    }
}

/// Componentwise linear interpolation between two colors.
pub open spec fn color_lerp_spec(a: Vec3Fx, b: Vec3Fx, t: int) -> Vec3Fx {
    Vec3Fx {
        x: (a.x + mul_div_spec(b.x - a.x, t, UNIT as int)) as i64,
        y: (a.y + mul_div_spec(b.y - a.y, t, UNIT as int)) as i64,
        z: (a.z + mul_div_spec(b.z - a.z, t, UNIT as int)) as i64,
    }
}

/// Palette sampling from segment `i` on: the first segment whose upper key
/// reaches `v` interpolates; past the last key the last color holds.
pub open spec fn sample_from_spec(p: Seq<ColorPoint>, v: int, i: int) -> Vec3Fx
    decreases p.len() - i,
{
    if i + 1 >= p.len() || i < 0 {
        p[p.len() - 1].color
    } else if v >= p[i].key && v <= p[i + 1].key {
        let t = mul_div_spec(v - p[i].key, UNIT as int, p[i + 1].key - p[i].key);
        color_lerp_spec(p[i].color, p[i + 1].color, t)
    } else {
        sample_from_spec(p, v, i + 1)
    }
}

/// Sampling a palette by a noise value: clamped at both ends, interpolated
/// between the two surrounding stops otherwise.
pub open spec fn sample_palette_spec(p: Seq<ColorPoint>, v: int) -> Vec3Fx {
    if v <= p[0].key {
        p[0].color
    } else if v >= p[p.len() - 1].key {
        p[p.len() - 1].color
    } else {
        sample_from_spec(p, v, 0)
    }
}

/// Interpolate a color channel; the result stays between the endpoints.
fn channel_lerp(a: i64, b: i64, t: i64) -> (r: i64)
    requires
        0 <= a <= UNIT,
        0 <= b <= UNIT,
        0 <= t <= UNIT,
    ensures
        r as int == a + mul_div_spec(b as int - a as int, t as int, UNIT as int),
        0 <= r <= UNIT,
{
    let d = b - a;
    proof {
        assert(abs_i(d as int) * abs_i(t as int) <= 0x4000_0000_0000_0000) by (nonlinear_arith)
            requires
                -65536 <= d <= 65536,
                0 <= t <= 65536;
    }
    let step = mul_div(d, t, UNIT);
    proof {
        if d >= 0 {
            assert((d as int) * (t as int) >= 0) by (nonlinear_arith)
                requires
                    d >= 0 && t >= 0;
            assert(step <= d) by (nonlinear_arith)
                requires
                    (step as int) * 65536 <= (d as int) * (t as int),
                    0 <= t <= 65536,
                    d >= 0,
                    step >= 0;
        } else {
            assert((d as int) * (t as int) <= 0) by (nonlinear_arith)
                requires
                    d < 0 && t >= 0;
            assert(d <= step) by (nonlinear_arith)
                requires
                    (d as int) * (t as int) <= (step as int) * 65536,
                    0 <= t <= 65536,
                    d < 0,
                    step <= 0;
        }
    }
    a + step
}

/// Map a noise value to a color through the palette.
pub fn get_color_from_noise(noise_value: i64, palette: &Vec<ColorPoint>) -> (r: Vec3Fx)
    requires
        palette_wf(palette@),
        -0x1_0000_0000 <= noise_value <= 0x1_0000_0000,
    ensures
        r == sample_palette_spec(palette@, noise_value as int),
        color_in_range(r),
{
    let n = palette.len();
    if noise_value <= palette[0].key {
        return palette[0].color;
    }
    if noise_value >= palette[n - 1].key {
        return palette[n - 1].color;
    }
    let mut i: usize = 0;
    loop
        invariant
            palette_wf(palette@),
            n == palette@.len(),
            0 <= i < n - 1,
            noise_value > palette@[0].key,
            noise_value < palette@[n - 1].key,
            noise_value > palette@[i as int].key,
            sample_from_spec(palette@, noise_value as int, 0) == sample_from_spec(
                palette@,
                noise_value as int,
                i as int,
            ),
        ensures
            0 <= i < n - 1,
            noise_value >= palette@[i as int].key,
            noise_value <= palette@[i as int + 1].key,
            sample_from_spec(palette@, noise_value as int, 0) == sample_from_spec(
                palette@,
                noise_value as int,
                i as int,
            ),
        decreases n - i,
    {
        if noise_value <= palette[i + 1].key {
            break ;
        }
        proof {
            assert(i + 2 < n) by {
                if i + 2 == n {
                    assert(noise_value > palette@[i as int + 1].key);
                    assert(false);
                }
            }
        }
        i = i + 1;
    }
    let k0 = palette[i].key;
    let k1 = palette[i + 1].key;
    proof {
        assert(abs_i((noise_value - k0) as int) * abs_i(UNIT as int) <= 0x4000_0000_0000_0000)
            by (nonlinear_arith)
            requires
                0 <= noise_value - k0 <= 0x2_0000_0000;
    }
    let q = mul_div(noise_value - k0, UNIT, k1 - k0);
    let t = if q > UNIT {
        UNIT
    } else if q < 0 {
        0
    } else {
        q
    };
    proof {
        // the raw ratio is already within one unit, so the clamp is identity
        assert((noise_value - k0) as int * (UNIT as int) <= (k1 - k0) as int * (UNIT as int)
            && 0 <= (noise_value - k0) as int * (UNIT as int)) by (nonlinear_arith)
            requires
                0 <= noise_value - k0 <= k1 - k0,
                0 < k1 - k0;
        assert(q as int == ((noise_value - k0) as int * (UNIT as int)) / ((k1 - k0) as int));
        assert(q <= UNIT) by (nonlinear_arith)
            requires
                q as int == ((noise_value - k0) as int * (UNIT as int)) / ((k1 - k0) as int),
                0 <= (noise_value - k0) as int <= (k1 - k0) as int,
                0 < k1 - k0,
                UNIT == 65536;
        assert(q >= 0);
    }
    let cx = channel_lerp(palette[i].color.x, palette[i + 1].color.x, t);
    let cy = channel_lerp(palette[i].color.y, palette[i + 1].color.y, t);
    let cz = channel_lerp(palette[i].color.z, palette[i + 1].color.z, t);
    let r = Vec3Fx { x: cx, y: cy, z: cz };
    proof {
        assert(r == color_lerp_spec(
            palette@[i as int].color,
            palette@[i as int + 1].color,
            t as int,
        ));
        assert(sample_from_spec(palette@, noise_value as int, i as int) == r);
    }
    r
}

/// Hermite step between two edges, in fixed point, clamped into `[0, UNIT]`.
pub open spec fn smoothstep_spec(edge0: int, edge1: int, x: int) -> int {
    let q = mul_div_spec(x - edge0, UNIT as int, edge1 - edge0);
    let t = if q < 0 {
        0
    } else if q > UNIT as int {
        UNIT as int
    } else {
        q
    };
    let a = (t * t) / (UNIT as int);
    let r0 = (a * (3 * (UNIT as int) - 2 * t)) / (UNIT as int);
    if r0 > UNIT as int {
        UNIT as int
    } else {
        r0
    }
}

/// Hermite step between two edges.
pub fn smoothstep(edge0: i64, edge1: i64, x: i64) -> (r: i64)
    requires
        edge0 < edge1,
        -0x10_0000 <= edge0,
        edge1 <= 0x10_0000,
        -0x10_0000_0000 <= x <= 0x10_0000_0000,
    ensures
        r as int == smoothstep_spec(edge0 as int, edge1 as int, x as int),
        0 <= r <= UNIT,
{
    proof {
        assert(abs_i((x - edge0) as int) * abs_i(UNIT as int) <= 0x4000_0000_0000_0000)
            by (nonlinear_arith)
            requires
                -0x20_0000_0000 <= x - edge0 <= 0x20_0000_0000;
    }
    let q = mul_div(x - edge0, UNIT, edge1 - edge0);
    let t = if q < 0 {
        0
    } else if q > UNIT {
        UNIT
    } else {
        q
    };
    proof {
        assert(t * t <= 0x1_0000_0000 && t * t >= 0) by (nonlinear_arith)
            requires
                0 <= t <= 65536;
    }
    let a = (t * t) / UNIT;
    proof {
        assert(0 <= a <= UNIT) by (nonlinear_arith)
            requires
                a as int == ((t as int) * (t as int)) / 65536,
                0 <= t <= 65536;
        assert(a * (3 * UNIT - 2 * t) <= 0x3_0000_0000_0000 && a * (3 * UNIT - 2 * t) >= 0)
            by (nonlinear_arith)
            requires
                0 <= a <= 65536,
                0 <= t <= 65536,
                UNIT == 65536;
    }
    let r0 = (a * (3 * UNIT - 2 * t)) / UNIT;
    if r0 > UNIT {
        UNIT
    } else {
        r0
    }
}

/// The fixed biome decision table over temperature, humidity and altitude:
/// ocean below sea level, then desert, forest, tundra or snow by climate.
pub open spec fn biome_index_spec(temperature: int, humidity: int, altitude: int, sea: int) -> int {
    if altitude < sea {
        0
    } else if temperature > TEMP_WARM as int {
        if humidity < HUMID_DRY as int {
            1
        } else {
            2
        }
    } else if temperature > TEMP_MILD as int {
        if humidity < HUMID_DRY as int {
            3
        } else {
            2
        }
    } else {
        if humidity < HUMID_DRY as int {
            3
        } else {
            5
        }
    }
}

/// Warm-climate threshold (`0.7` in units of `UNIT`).
pub const TEMP_WARM: i64 = 45875;

/// Mild-climate threshold (`0.3` in units of `UNIT`).
pub const TEMP_MILD: i64 = 19661;

/// Dry-climate threshold (`0.3` in units of `UNIT`).
pub const HUMID_DRY: i64 = 19661;

/// Select a biome palette index from the climate of a vertex.
pub fn get_biome_index(temperature: i64, humidity: i64, altitude: i64, sea_level: i64) -> (r:
    usize)
    ensures
        r as int == biome_index_spec(
            temperature as int,
            humidity as int,
            altitude as int,
            sea_level as int,
        ),
        r < 6,
        r != 4,
{
    if altitude < sea_level {
        0
    } else if temperature > TEMP_WARM {
        if humidity < HUMID_DRY {
            1
        } else {
            2
        }
    } else if temperature > TEMP_MILD {
        if humidity < HUMID_DRY {
            3
        } else {
            2
        }
    } else {
        if humidity < HUMID_DRY {
            3
        } else {
            5
        }
    }
}


/// Persistence `0.9` in units of `UNIT`.
pub const PERS_STRONG: i64 = 58982;

/// Persistence `0.5` in units of `UNIT`.
pub const PERS_HALF: i64 = 32768;

/// Persistence `0.6` in units of `UNIT`.
pub const PERS_MEDIUM: i64 = 39322;

/// Continent smoothstep upper edge (`0.1` unit).
pub const CONTINENT_EDGE: i64 = 6554;

/// Big-mountain smoothstep upper edge (`0.2` unit).
pub const BIG_MOUNTAIN_EDGE: i64 = 13107;

/// Latitude proxy: `0` at the north pole, one unit at the south pole,
/// linear in the height coordinate.
pub open spec fn latitude_spec(y: int) -> int {
    if y >= UNIT as int {
        0
    } else {
        ((UNIT as int) - y) / 2
    }
}

/// Latitude proxy of a point on the unit sphere.
pub fn latitude_of(y: i64) -> (r: i64)
    requires
        -2 * UNIT <= y <= 2 * UNIT,
    ensures
        r as int == latitude_spec(y as int),
        0 <= r <= UNIT + UNIT / 2,
{
    if y >= UNIT {
        0
    } else {
        (UNIT - y) / 2
    }
}

/// Temperature of a vertex: warm at the equator, cooling with latitude and
/// altitude, perturbed by two fractal noise samples.
pub open spec fn temperature_spec(tab: Seq<u8>, latitude: int, altitude: int, v: Vec3Fx) -> int {
    let u = UNIT as int;
    let dev = 2 * abs_i(latitude - u / 2);
    let base0 = u - dev - mul_div_spec(altitude, 7, 10);
    let base = if base0 < 0 {
        0
    } else if base0 > u {
        u
    } else {
        base0
    };
    let n1 = fbm_spec(tab, v.x as int, v.y as int, v.z as int, 4, PERS_STRONG as int, 2 * u);
    let n2 = fbm_spec(tab, v.x as int, v.y as int, v.z as int, 4, PERS_STRONG as int, 20 * u);
    base + mul_div_spec(n1, 3, 10) + mul_div_spec(n2, 3, 20)
}

/// Temperature of a vertex.
pub fn compute_temperature(noise: &NoiseField, latitude: i64, altitude: i64, v: Vec3Fx) -> (r: i64)
    requires
        noise.wf(),
        0 <= latitude <= 2 * UNIT,
        -0x1_0000_0000_0000 <= altitude <= 0x1_0000_0000_0000,
        coords_bounded(v, 2 * UNIT as int),
    ensures
        r as int == temperature_spec(noise.table(), latitude as int, altitude as int, v),
        -2 * UNIT <= r <= 2 * UNIT,
{
    let dev0 = latitude - UNIT / 2;
    let dev = if dev0 >= 0 {
        2 * dev0
    } else {
        -(2 * dev0)
    };
    proof {
        assert(abs_i(altitude as int) * 7 <= 0x4000_0000_0000_0000) by (nonlinear_arith)
            requires
                -0x1_0000_0000_0000 <= altitude <= 0x1_0000_0000_0000;
    }
    let alt_term = mul_div(altitude, 7, 10);
    let base0 = UNIT - dev - alt_term;
    let base = if base0 < 0 {
        0
    } else if base0 > UNIT {
        UNIT
    } else {
        base0
    };
    let n1 = noise.fbm(v.x, v.y, v.z, 4, PERS_STRONG, 2 * UNIT);
    let n2 = noise.fbm(v.x, v.y, v.z, 4, PERS_STRONG, 20 * UNIT);
    let t1 = mul_div(n1, 3, 10);
    let t2 = mul_div(n2, 3, 20);
    proof {
        assert(abs_i(t1 as int) <= 2 * UNIT && abs_i(t2 as int) <= 2 * UNIT) by (nonlinear_arith)
            requires
                abs_i(t1 as int) * 10 <= abs_i(n1 as int) * 3,
                abs_i(t2 as int) * 20 <= abs_i(n2 as int) * 3,
                abs_i(n1 as int) <= 2 * 65536,
                abs_i(n2 as int) <= 2 * 65536,
                UNIT == 65536;
        assert(base + t1 + t2 <= 2 * UNIT && base + t1 + t2 >= -2 * UNIT);
    }
    base + t1 + t2
}

/// Humidity of a vertex: two fractal samples at offset positions, folded
/// into a damp nonnegative-leaning range.
pub open spec fn humidity_spec(tab: Seq<u8>, v: Vec3Fx) -> int {
    let u = UNIT as int;
    let n1 = fbm_spec(
        tab,
        v.x + 100 * u,
        v.y + 100 * u,
        v.z + 100 * u,
        4,
        PERS_HALF as int,
        2 * u,
    );
    let n2 = fbm_spec(
        tab,
        v.x + 200 * u,
        v.y + 200 * u,
        v.z + 200 * u,
        4,
        PERS_MEDIUM as int,
        20 * u,
    );
    let h = mul_div_spec(n1, 7, 10) + mul_div_spec(n2, 3, 10);
    mul_div_spec(h + u, 7, 20)
}

/// Humidity of a vertex.
pub fn compute_humidity(noise: &NoiseField, v: Vec3Fx) -> (r: i64)
    requires
        noise.wf(),
        coords_bounded(v, 2 * UNIT as int),
    ensures
        r as int == humidity_spec(noise.table(), v),
        -2 * UNIT <= r <= 2 * UNIT,
{
    let n1 = noise.fbm(v.x + 100 * UNIT, v.y + 100 * UNIT, v.z + 100 * UNIT, 4, PERS_HALF, 2 * UNIT);
    let n2 = noise.fbm(
        v.x + 200 * UNIT,
        v.y + 200 * UNIT,
        v.z + 200 * UNIT,
        4,
        PERS_MEDIUM,
        20 * UNIT,
    );
    let t1 = mul_div(n1, 7, 10);
    let t2 = mul_div(n2, 3, 10);
    proof {
        assert(abs_i(t1 as int) <= 2 * UNIT && abs_i(t2 as int) <= UNIT) by (nonlinear_arith)
            requires
                abs_i(t1 as int) * 10 <= abs_i(n1 as int) * 7,
                abs_i(t2 as int) * 10 <= abs_i(n2 as int) * 3,
                abs_i(n1 as int) <= 2 * 65536,
                abs_i(n2 as int) <= 2 * 65536,
                UNIT == 65536;
    }
    let h = t1 + t2;
    let r = mul_div(h + UNIT, 7, 20);
    proof {
        assert(abs_i(r as int) <= 2 * UNIT) by (nonlinear_arith)
            requires
                abs_i(r as int) * 20 <= abs_i((h + UNIT) as int) * 7,
                abs_i((h + UNIT) as int) <= 4 * 65536,
                UNIT == 65536;
    }
    r
}

/// The synthesis parameters of one body: displacement shaping, the four
/// noise layers, and one palette per biome (the fifth palette is the rock
/// palette blended over steep terrain).
pub struct TerrainParams {
    pub radius: i64,
    pub sea_level: i64,
    pub height_amplitude: i64,
    pub continent_octaves: u32,
    pub continent_persistence: i64,
    pub continent_scale: i64,
    pub big_mountain_octaves: u32,
    pub big_mountain_persistence: i64,
    pub big_mountain_scale: i64,
    pub mountain_octaves: u32,
    pub mountain_persistence: i64,
    pub mountain_scale: i64,
    pub biome_octaves: u32,
    pub biome_persistence: i64,
    pub biome_scale: i64,
    pub biome_palettes: Vec<Vec<ColorPoint>>,
}

impl TerrainParams {
    /// Parameter ranges under which every synthesis step is exact and free
    /// of overflow.
    pub open spec fn wf(self) -> bool {
        &&& UNIT / 2 <= self.sea_level <= self.radius <= UNIT
        &&& 1 <= self.height_amplitude <= UNIT / 8
        &&& 1 <= self.continent_octaves <= 16 && 1 <= self.continent_persistence <= UNIT && 1
            <= self.continent_scale <= crate::noise::FBM_SCALE_LIMIT
        &&& 1 <= self.big_mountain_octaves <= 16 && 1 <= self.big_mountain_persistence <= UNIT && 1
            <= self.big_mountain_scale <= crate::noise::FBM_SCALE_LIMIT
        &&& 1 <= self.mountain_octaves <= 16 && 1 <= self.mountain_persistence <= UNIT && 1
            <= self.mountain_scale <= crate::noise::FBM_SCALE_LIMIT
        &&& 1 <= self.biome_octaves <= 16 && 1 <= self.biome_persistence <= UNIT && 1
            <= self.biome_scale <= crate::noise::FBM_SCALE_LIMIT
        &&& self.biome_palettes@.len() == 6
        &&& forall|j: int| 0 <= j < 6 ==> palette_wf((#[trigger] self.biome_palettes@[j])@)
    }
}

/// The four per-vertex noise samples: continent, big mountain, mountain and
/// biome signals.
pub open spec fn vertex_signals_spec(p: TerrainParams, tab: Seq<u8>, v: Vec3Fx) -> (
    int,
    int,
    int,
    int,
) {
    (
        fbm_spec(
            tab,
            v.x as int,
            v.y as int,
            v.z as int,
            p.continent_octaves as nat,
            p.continent_persistence as int,
            p.continent_scale as int,
        ),
        fbm_spec(
            tab,
            v.x as int,
            v.y as int,
            v.z as int,
            p.big_mountain_octaves as nat,
            p.big_mountain_persistence as int,
            p.big_mountain_scale as int,
        ),
        fbm_spec(
            tab,
            v.x as int,
            v.y as int,
            v.z as int,
            p.mountain_octaves as nat,
            p.mountain_persistence as int,
            p.mountain_scale as int,
        ),
        fbm_spec(
            tab,
            v.x as int,
            v.y as int,
            v.z as int,
            p.biome_octaves as nat,
            p.biome_persistence as int,
            p.biome_scale as int,
        ),
    )
}

/// Continent factor: mountain product weighted against the continent signal.
pub open spec fn continent_factor_spec(cn: int, bn: int, mn: int) -> int {
    mul_div_spec(mul_div_spec(mn, bn, UNIT as int), 3, 5) + mul_div_spec(cn, 2, 5)
}

/// Displaced radius before the sea-level clamp.
pub open spec fn raw_radius_spec(p: TerrainParams, tab: Seq<u8>, v: Vec3Fx) -> int {
    let u = UNIT as int;
    let s = vertex_signals_spec(p, tab, v);
    let cf = continent_factor_spec(s.0, s.1, s.2);
    let wc = smoothstep_spec(0, CONTINENT_EDGE as int, s.0);
    let wb = smoothstep_spec(0, BIG_MOUNTAIN_EDGE as int, s.1);
    let ridge = mul_div_spec(mul_div_spec(mul_div_spec(wb, wc, u), s.1, u), p.height_amplitude as int, 4 * u);
    p.radius + mul_div_spec(cf, p.height_amplitude as int, u) + ridge
}

/// Displaced radius: the raw radius clamped up to sea level.
pub open spec fn displaced_radius_spec(p: TerrainParams, tab: Seq<u8>, v: Vec3Fx) -> int {
    let d0 = raw_radius_spec(p, tab, v);
    if d0 <= p.sea_level as int {
        p.sea_level as int
    } else {
        d0
    }
}

/// The vertex is under water: its raw radius does not clear sea level.
pub open spec fn underwater_spec(p: TerrainParams, tab: Seq<u8>, v: Vec3Fx) -> bool {
    raw_radius_spec(p, tab, v) <= p.sea_level as int
}

/// Displaced position: the unit vertex scaled by the displaced radius.
pub open spec fn vertex_pos_spec(p: TerrainParams, tab: Seq<u8>, v: Vec3Fx) -> Vec3Fx {
    let d = displaced_radius_spec(p, tab, v);
    Vec3Fx {
        x: mul_div_spec(v.x as int, d, UNIT as int) as i64,
        y: mul_div_spec(v.y as int, d, UNIT as int) as i64,
        z: mul_div_spec(v.z as int, d, UNIT as int) as i64,
    }
}

/// Vertex color: ocean palette by continent factor under water; otherwise a
/// biome palette sample blended toward the rock palette on steep terrain.
pub open spec fn vertex_color_spec(p: TerrainParams, tab: Seq<u8>, v: Vec3Fx) -> Vec3Fx {
    let u = UNIT as int;
    let s = vertex_signals_spec(p, tab, v);
    let cf = continent_factor_spec(s.0, s.1, s.2);
    let d = displaced_radius_spec(p, tab, v);
    if underwater_spec(p, tab, v) {
        sample_palette_spec(p.biome_palettes@[0]@, cf)
    } else {
        let lat = latitude_spec(v.y as int);
        let alt = mul_div_spec(d - p.radius, u, p.height_amplitude as int);
        let temp = temperature_spec(tab, lat, alt, v);
        let hum = humidity_spec(tab, v);
        let bi = biome_index_spec(temp, hum, d, p.sea_level as int);
        let bc = sample_palette_spec(p.biome_palettes@[bi]@, s.3);
        let mb = mul_div_spec(s.2, s.1, u);
        let mc = sample_palette_spec(p.biome_palettes@[4]@, mb);
        let a0 = abs_i(20 * mb);
        let a = if a0 > u {
            u
        } else {
            a0
        };
        let inv = (u - a) / 2;
        let mix = (u + a) / 2;
        Vec3Fx {
            x: (mul_div_spec(bc.x as int, inv, u) + mul_div_spec(mc.x as int, mix, u)) as i64,
            y: (mul_div_spec(bc.y as int, inv, u) + mul_div_spec(mc.y as int, mix, u)) as i64,
            z: (mul_div_spec(bc.z as int, inv, u) + mul_div_spec(mc.z as int, mix, u)) as i64,
        }
    }
}

/// Blend one channel of the biome and rock colors.
fn blend_channel(bc: i64, mc: i64, inv: i64, mix: i64) -> (r: i64)
    requires
        0 <= bc <= UNIT,
        0 <= mc <= UNIT,
        0 <= inv,
        0 <= mix,
        inv + mix <= UNIT,
    ensures
        r as int == mul_div_spec(bc as int, inv as int, UNIT as int) + mul_div_spec(
            mc as int,
            mix as int,
            UNIT as int,
        ),
        0 <= r <= UNIT,
{
    proof {
        assert(abs_i(bc as int) * abs_i(inv as int) <= 0x4000_0000_0000_0000 && abs_i(mc as int)
            * abs_i(mix as int) <= 0x4000_0000_0000_0000) by (nonlinear_arith)
            requires
                0 <= bc <= 65536 && 0 <= mc <= 65536 && 0 <= inv <= 65536 && 0 <= mix <= 65536;
    }
    let tb = mul_div(bc, inv, UNIT);
    let tm = mul_div(mc, mix, UNIT);
    proof {
        assert(0 <= tb <= inv && 0 <= tm <= mix) by (nonlinear_arith)
            requires
                0 <= (bc as int) * (inv as int),
                (tb as int) * 65536 <= (bc as int) * (inv as int),
                0 <= (mc as int) * (mix as int),
                (tm as int) * 65536 <= (mc as int) * (mix as int),
                0 <= tb && 0 <= tm,
                0 <= bc <= 65536 && 0 <= mc <= 65536 && 0 <= inv && 0 <= mix,
                UNIT == 65536;
    }
    tb + tm
}

/// Displacement and color of one unit-sphere vertex: four fractal signals
/// shape the radius (clamped up to sea level) and pick the color from the
/// ocean, biome and rock palettes.
#[verifier::rlimit(100)]
pub fn compute_vertex_data(params: &TerrainParams, noise: &NoiseField, v: Vec3Fx) -> (r: (
    Vec3Fx,
    Vec3Fx,
))
    requires
        params.wf(),
        noise.wf(),
        coords_bounded(v, UNIT as int),
    ensures
        r.0 == vertex_pos_spec(*params, noise.table(), v),
        r.1 == vertex_color_spec(*params, noise.table(), v),
        coords_bounded(r.0, 2 * UNIT as int),
        color_in_range(r.1),
        !underwater_spec(*params, noise.table(), v) ==> displaced_radius_spec(
            *params,
            noise.table(),
            v,
        ) > params.sea_level as int,
{
    let u = UNIT;
    let cn = noise.fbm(
        v.x,
        v.y,
        v.z,
        params.continent_octaves,
        params.continent_persistence,
        params.continent_scale,
    );
    let bn = noise.fbm(
        v.x,
        v.y,
        v.z,
        params.big_mountain_octaves,
        params.big_mountain_persistence,
        params.big_mountain_scale,
    );
    let mn = noise.fbm(
        v.x,
        v.y,
        v.z,
        params.mountain_octaves,
        params.mountain_persistence,
        params.mountain_scale,
    );
    let on = noise.fbm(
        v.x,
        v.y,
        v.z,
        params.biome_octaves,
        params.biome_persistence,
        params.biome_scale,
    );
    proof {
        assert(abs_i(mn as int) * abs_i(bn as int) <= 0x4000_0000_0000_0000) by (nonlinear_arith)
            requires
                -131072 <= mn <= 131072 && -131072 <= bn <= 131072;
    }
    let mb = mul_div(mn, bn, u);
    proof {
        assert(abs_i(mb as int) <= 4 * UNIT) by (nonlinear_arith)
            requires
                abs_i(mb as int) * 65536 <= abs_i(mn as int) * abs_i(bn as int),
                abs_i(mn as int) <= 131072 && abs_i(bn as int) <= 131072,
                UNIT == 65536;
    }
    let cf = {
        let p1 = mul_div(mb, 3, 5);
        let p2 = mul_div(cn, 2, 5);
        proof {
            assert(abs_i(p1 as int) <= 3 * UNIT && abs_i(p2 as int) <= UNIT) by (nonlinear_arith)
                requires
                    abs_i(p1 as int) * 5 <= abs_i(mb as int) * 3,
                    abs_i(p2 as int) * 5 <= abs_i(cn as int) * 2,
                    abs_i(mb as int) <= 4 * 65536,
                    abs_i(cn as int) <= 2 * 65536,
                    UNIT == 65536;
        }
        p1 + p2
    };
    let wc = smoothstep(0, CONTINENT_EDGE, cn);
    let wb = smoothstep(0, BIG_MOUNTAIN_EDGE, bn);
    let ridge = {
        proof {
            assert(abs_i(wb as int) * abs_i(wc as int) <= 0x4000_0000_0000_0000)
                by (nonlinear_arith)
                requires
                    0 <= wb <= 65536 && 0 <= wc <= 65536;
        }
        let q1 = mul_div(wb, wc, u);
        proof {
            assert(0 <= q1 <= UNIT) by (nonlinear_arith)
                requires
                    0 <= (wb as int) * (wc as int),
                    (q1 as int) * 65536 <= (wb as int) * (wc as int),
                    0 <= q1,
                    0 <= wb <= 65536 && 0 <= wc <= 65536,
                    UNIT == 65536;
        }
        proof {
            assert(abs_i(q1 as int) * abs_i(bn as int) <= 0x4000_0000_0000_0000)
                by (nonlinear_arith)
                requires
                    0 <= q1 <= 65536 && -131072 <= bn <= 131072;
        }
        let q2 = mul_div(q1, bn, u);
        proof {
            assert(abs_i(q2 as int) <= 2 * UNIT) by (nonlinear_arith)
                requires
                    abs_i(q2 as int) * 65536 <= abs_i(q1 as int) * abs_i(bn as int),
                    0 <= q1 <= 65536,
                    abs_i(bn as int) <= 2 * 65536,
                    UNIT == 65536;
        }
        proof {
            assert(abs_i(q2 as int) * abs_i(params.height_amplitude as int)
                <= 0x4000_0000_0000_0000) by (nonlinear_arith)
                requires
                    abs_i(q2 as int) <= 131072 && 1 <= params.height_amplitude <= 8192;
        }
        let q3 = mul_div(q2, params.height_amplitude, 4 * u);
        proof {
            assert(abs_i(q3 as int) <= UNIT / 8) by (nonlinear_arith)
                requires
                    abs_i(q3 as int) * (4 * 65536) <= abs_i(q2 as int) * abs_i(
                        params.height_amplitude as int,
                    ),
                    abs_i(q2 as int) <= 2 * 65536,
                    1 <= params.height_amplitude <= 8192,
                    UNIT == 65536;
        }
        q3
    };
    proof {
        assert(abs_i(cf as int) * abs_i(params.height_amplitude as int) <= 0x4000_0000_0000_0000)
            by (nonlinear_arith)
            requires
                abs_i(cf as int) <= 4 * 65536 && 1 <= params.height_amplitude <= 8192;
    }
    let lift = mul_div(cf, params.height_amplitude, u);
    proof {
        assert(abs_i(lift as int) <= UNIT / 2) by (nonlinear_arith)
            requires
                abs_i(lift as int) * 65536 <= abs_i(cf as int) * abs_i(
                    params.height_amplitude as int,
                ),
                abs_i(cf as int) <= 4 * 65536,
                1 <= params.height_amplitude <= 8192,
                UNIT == 65536;
    }
    let d0 = params.radius + lift + ridge;
    let underwater = d0 <= params.sea_level;
    let d = if underwater {
        params.sea_level
    } else {
        d0
    };
    proof {
        assert(d == displaced_radius_spec(*params, noise.table(), v));
        assert(UNIT / 2 <= d && d <= 2 * UNIT);
    }
    proof {
        assert(abs_i(v.x as int) * abs_i(d as int) <= 0x4000_0000_0000_0000 && abs_i(v.y as int)
            * abs_i(d as int) <= 0x4000_0000_0000_0000 && abs_i(v.z as int) * abs_i(d as int)
            <= 0x4000_0000_0000_0000) by (nonlinear_arith)
            requires
                abs_i(v.x as int) <= 65536 && abs_i(v.y as int) <= 65536 && abs_i(v.z as int)
                    <= 65536,
                0 <= d <= 2 * 65536;
    }
    let px = mul_div(v.x, d, u);
    let py = mul_div(v.y, d, u);
    let pz = mul_div(v.z, d, u);
    proof {
        assert(abs_i(px as int) <= 2 * UNIT && abs_i(py as int) <= 2 * UNIT && abs_i(pz as int)
            <= 2 * UNIT) by (nonlinear_arith)
            requires
                abs_i(px as int) * 65536 <= abs_i(v.x as int) * abs_i(d as int),
                abs_i(py as int) * 65536 <= abs_i(v.y as int) * abs_i(d as int),
                abs_i(pz as int) * 65536 <= abs_i(v.z as int) * abs_i(d as int),
                abs_i(v.x as int) <= 65536 && abs_i(v.y as int) <= 65536 && abs_i(v.z as int)
                    <= 65536,
                0 <= d <= 2 * 65536,
                UNIT == 65536;
    }
    let pos = Vec3Fx { x: px, y: py, z: pz };
    let color = if underwater {
        get_color_from_noise(cf, &params.biome_palettes[0])
    } else {
        let lat = latitude_of(v.y);
        proof {
            assert(abs_i((d - params.radius) as int) * abs_i(UNIT as int)
                <= 0x4000_0000_0000_0000) by (nonlinear_arith)
                requires
                    -2 * 65536 <= d - params.radius <= 2 * 65536,
                    UNIT == 65536;
        }
        let alt = mul_div(d - params.radius, u, params.height_amplitude);
        proof {
            assert(abs_i(alt as int) <= 0x1_0000_0000_0000) by (nonlinear_arith)
                requires
                    abs_i(alt as int) * (params.height_amplitude as int) <= abs_i((d
                        - params.radius) as int) * abs_i(UNIT as int),
                    -2 * 65536 <= d - params.radius <= 2 * 65536,
                    1 <= params.height_amplitude,
                    UNIT == 65536;
        }
        let temp = compute_temperature(noise, lat, alt, v);
        let hum = compute_humidity(noise, v);
        let bi = get_biome_index(temp, hum, d, params.sea_level);
        let bc = get_color_from_noise(on, &params.biome_palettes[bi]);
        let mc = get_color_from_noise(mb, &params.biome_palettes[4]);
        let a0 = if mb >= 0 {
            20 * mb
        } else {
            -(20 * mb)
        };
        let a = if a0 > u {
            u
        } else {
            a0
        };
        let inv = (u - a) / 2;
        let mix = (u + a) / 2;
        let rx = blend_channel(bc.x, mc.x, inv, mix);
        let ry = blend_channel(bc.y, mc.y, inv, mix);
        let rz = blend_channel(bc.z, mc.z, inv, mix);
        Vec3Fx { x: rx, y: ry, z: rz }
    };
    proof {
        assert(color == vertex_color_spec(*params, noise.table(), v));
    }
    (pos, color)
}

} // verus!
