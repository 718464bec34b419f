//! Fixed-point scalar and 3-vector arithmetic.
//!
//! A geometric length of 1.0 is represented by the integer `UNIT`.  All of
//! the mesh pipeline works on these integer vectors, so every arithmetic
//! step can be verified exactly.

use vstd::prelude::*;
use vstd::arithmetic::div_mod::lemma_fundamental_div_mod;

verus! {

/// Fixed-point scale: the integer that stands for a geometric length of 1.
pub const UNIT: i64 = 65536;

/// Absolute tolerance on the squared norm of a vector returned by
/// [`normalize`]: such a vector `v` satisfies
/// `UNIT*UNIT - NORM_SQ_TOL <= |v|^2 <= UNIT*UNIT + NORM_SQ_TOL`.
pub const NORM_SQ_TOL: i64 = 524288;

/// Largest coordinate magnitude accepted by [`normalize`].
pub const NORMALIZE_COORD_LIMIT: i64 = 0x2000_0000;

/// Smallest vector norm that [`normalize`] divides by; shorter inputs get
/// the fallback unit vector.
pub const MIN_NORM: u64 = 16384;

/// A 3-vector of fixed-point coordinates.
#[derive(Clone, Copy, Debug, PartialEq, Eq, Structural)]
pub struct Vec3Fx {
    pub x: i64,
    pub y: i64,
    pub z: i64,
}

/// Squared Euclidean norm, in mathematical integers.
pub open spec fn norm_sq(v: Vec3Fx) -> int {
    v.x * v.x + v.y * v.y + v.z * v.z
}

/// The vector lies on the unit sphere, up to the fixed-point tolerance.
pub open spec fn on_unit_sphere(v: Vec3Fx) -> bool {
    UNIT * UNIT - NORM_SQ_TOL <= norm_sq(v) <= UNIT * UNIT + NORM_SQ_TOL
}

/// Every coordinate of `v` has magnitude at most `b`.
pub open spec fn coords_bounded(v: Vec3Fx, b: int) -> bool {
    &&& -b <= v.x <= b
    &&& -b <= v.y <= b
    &&& -b <= v.z <= b
}

/// Absolute value on mathematical integers.
pub open spec fn abs_i(x: int) -> int {
    if x >= 0 {
        x
    } else {
        -x
    }
}

/// `r` is the integer square root of `s`.
pub open spec fn is_isqrt(s: int, r: int) -> bool {
    &&& 0 <= r
    &&& r * r <= s
    &&& s < (r + 1) * (r + 1)
}

proof fn lemma_sq_monotone(a: int, b: int)
    by (nonlinear_arith)
    requires
        0 <= a <= b,
    ensures
        a * a <= b * b,
{
}

pub proof fn lemma_isqrt_unique(s: int, r1: int, r2: int)
    requires
        is_isqrt(s, r1),
        is_isqrt(s, r2),
    ensures
        r1 == r2,
{
    if r1 < r2 {
        lemma_sq_monotone(r1 + 1, r2);
        assert(false);
    }
    if r2 < r1 {
        lemma_sq_monotone(r2 + 1, r1);
        assert(false);
    }
}

/// The integer square root of `s`, as a spec-level function.
pub open spec fn spec_isqrt(s: int) -> int {
    choose|r: int| is_isqrt(s, r)
}

/// Integer square root by binary search.
pub fn isqrt64(s: u64) -> (r: u64)
    requires
        s < 0x4000_0000_0000_0000,
    ensures
        is_isqrt(s as int, r as int),
        r == spec_isqrt(s as int),
{
    let mut lo: u64 = 0;
    let mut hi: u64 = 0x8000_0000;
    proof {
        assert((0x8000_0000u64 as int) * (0x8000_0000u64 as int) == 0x4000_0000_0000_0000int);
    }
    while lo + 1 < hi
        invariant
            lo < hi <= 0x8000_0000,
            (lo as int) * (lo as int) <= s as int,
            (s as int) < (hi as int) * (hi as int),
        decreases hi - lo,
    {
        let mid = lo + (hi - lo) / 2;
        proof {
            assert((mid as int) * (mid as int) < 0x4000_0000_0000_0000) by (nonlinear_arith)
                requires
                    0 <= (mid as int) && (mid as int) < 0x8000_0000;
        }
        if mid * mid <= s {
            lo = mid;
        } else {
            hi = mid;
        }
    }
    proof {
        assert(is_isqrt(s as int, lo as int));
        let w = spec_isqrt(s as int);
        assert(is_isqrt(s as int, w));
        lemma_isqrt_unique(s as int, lo as int, w);
    }
    lo
}

/// One normalized component: `x` scaled by `UNIT / n`, with the division
/// done on magnitudes (so it rounds toward zero).
pub open spec fn scale_comp_spec(x: int, n: int) -> int {
    if x >= 0 {
        (x * UNIT) / n
    } else {
        -(((-x) * UNIT) / n)
    }
}

fn scale_comp(x: i64, n: u64) -> (r: i64)
    requires
        -NORMALIZE_COORD_LIMIT <= x <= NORMALIZE_COORD_LIMIT,
        MIN_NORM <= n <= 0x1_0000_0000,
    ensures
        r == scale_comp_spec(x as int, n as int),
{
    let mag: u64 = if x >= 0 {
        x as u64
    } else {
        (-x) as u64
    };
    let q: u64 = (mag * 65536) / n;
    if x >= 0 {
        q as i64
    } else {
        -(q as i64)
    }
}

/// Core bound: if `n` is the integer square root of the squared norm and is
/// at least a quarter unit, then the scaled components have a squared norm
/// within `NORM_SQ_TOL` of `UNIT*UNIT`, and each has magnitude at most `UNIT`.
proof fn lemma_scaled_norm(x: int, y: int, z: int, n: int, qx: int, qy: int, qz: int)
    requires
        16384 <= n,
        is_isqrt(x * x + y * y + z * z, n),
        qx == scale_comp_spec(x, n),
        qy == scale_comp_spec(y, n),
        qz == scale_comp_spec(z, n),
    ensures
        UNIT * UNIT - NORM_SQ_TOL <= qx * qx + qy * qy + qz * qz <= UNIT * UNIT + NORM_SQ_TOL,
        -UNIT <= qx <= UNIT,
        -UNIT <= qy <= UNIT,
        -UNIT <= qz <= UNIT,
{
    let s = x * x + y * y + z * z;
    let ax = abs_i(x);
    let ay = abs_i(y);
    let az = abs_i(z);
    assert(ax * ax == x * x && ay * ay == y * y && az * az == z * z) by (nonlinear_arith)
        requires
            (ax == x || ax == -x) && (ay == y || ay == -y) && (az == z || az == -z);
    lemma_comp_sq_bounds(ax, n, s);
    lemma_comp_sq_bounds(ay, n, s);
    lemma_comp_sq_bounds(az, n, s);
    let cx = (ax * UNIT) / n;
    let cy = (ay * UNIT) / n;
    let cz = (az * UNIT) / n;
    assert(qx == cx || qx == -cx);
    assert(qy == cy || qy == -cy);
    assert(qz == cz || qz == -cz);
    assert(qx * qx == cx * cx && qy * qy == cy * cy && qz * qz == cz * cz) by (nonlinear_arith)
        requires
            (qx == cx || qx == -cx) && (qy == cy || qy == -cy) && (qz == cz || qz == -cz);
    assert(s <= n * n + 2 * n) by (nonlinear_arith)
        requires
            s < (n + 1) * (n + 1);
    // upper bound on the sum of squares
    assert(n * n * (cx * cx + cy * cy + cz * cz) <= UNIT * UNIT * s) by (nonlinear_arith)
        requires
            n * n * (cx * cx) <= UNIT * UNIT * (ax * ax),
            n * n * (cy * cy) <= UNIT * UNIT * (ay * ay),
            n * n * (cz * cz) <= UNIT * UNIT * (az * az),
            s == ax * ax + ay * ay + az * az;
    assert(UNIT * UNIT * s <= n * n * (UNIT * UNIT + NORM_SQ_TOL)) by (nonlinear_arith)
        requires
            s <= n * n + 2 * n,
            16384 <= n,
            UNIT == 65536 && NORM_SQ_TOL == 524288;
    assert(cx * cx + cy * cy + cz * cz <= UNIT * UNIT + NORM_SQ_TOL) by (nonlinear_arith)
        requires
            n * n * (cx * cx + cy * cy + cz * cz) <= n * n * (UNIT * UNIT + NORM_SQ_TOL),
            n >= 1;
    // lower bound on the sum of squares
    assert(UNIT * UNIT * s <= n * n * ((cx * cx + cy * cy + cz * cz) + 2 * (cx + cy + cz) + 3))
        by (nonlinear_arith)
        requires
            UNIT * UNIT * (ax * ax) <= n * n * ((cx + 1) * (cx + 1)),
            UNIT * UNIT * (ay * ay) <= n * n * ((cy + 1) * (cy + 1)),
            UNIT * UNIT * (az * az) <= n * n * ((cz + 1) * (cz + 1)),
            s == ax * ax + ay * ay + az * az;
    assert(n * n * (UNIT * UNIT) <= UNIT * UNIT * s) by (nonlinear_arith)
        requires
            n * n <= s,
            UNIT == 65536;
    assert(UNIT * UNIT <= (cx * cx + cy * cy + cz * cz) + 2 * (cx + cy + cz) + 3)
        by (nonlinear_arith)
        requires
            n * n * (UNIT * UNIT) <= n * n * ((cx * cx + cy * cy + cz * cz) + 2 * (cx + cy + cz)
                + 3),
            n >= 1;
    assert(cx + cy + cz <= 3 * UNIT);
    assert(qx * qx + qy * qy + qz * qz >= UNIT * UNIT - NORM_SQ_TOL);
}

/// Bounds for one component: with `a = |x|`, `c = (a*UNIT)/n`, and
/// `a*a <= s < (n+1)*(n+1)`, we get `c <= UNIT` and the two squared
/// comparisons used by `lemma_scaled_norm`.
proof fn lemma_comp_sq_bounds(a: int, n: int, s: int)
    requires
        0 <= a,
        16384 <= n,
        a * a <= s,
        is_isqrt(s, n),
    ensures
        0 <= (a * UNIT) / n <= UNIT,
        n * n * (((a * UNIT) / n) * ((a * UNIT) / n)) <= UNIT * UNIT * (a * a),
        UNIT * UNIT * (a * a) <= n * n * ((((a * UNIT) / n) + 1) * (((a * UNIT) / n) + 1)),
{
    // a <= n, because a*a <= s < (n+1)*(n+1)
    assert(a <= n) by (nonlinear_arith)
        requires
            0 <= a,
            0 <= n,
            a * a < (n + 1) * (n + 1);
    let p = a * UNIT;
    assert(0 <= p) by (nonlinear_arith)
        requires
            0 <= a,
            p == a * UNIT,
            UNIT == 65536;
    let c = p / n;
    lemma_fundamental_div_mod(p, n);
    assert(p == n * c + p % n);
    assert(0 <= p % n < n);
    assert(0 <= c) by (nonlinear_arith)
        requires
            p == n * c + p % n,
            0 <= p % n < n,
            0 <= p,
            n >= 1;
    // c <= UNIT since p = a*UNIT <= n*UNIT
    assert(p <= n * UNIT) by (nonlinear_arith)
        requires
            a <= n,
            p == a * UNIT,
            UNIT == 65536;
    assert(c <= UNIT) by (nonlinear_arith)
        requires
            p == n * c + p % n,
            0 <= p % n,
            p <= n * UNIT,
            n >= 1,
            UNIT == 65536;
    // n*c <= p, hence (n*c)^2 <= p^2
    assert(n * c <= p);
    assert(n * n * (c * c) <= UNIT * UNIT * (a * a)) by (nonlinear_arith)
        requires
            0 <= n * c,
            n * c <= p,
            p == a * UNIT,
            0 <= a,
            UNIT == 65536;
    // p <= n*c + n - 1 <= n*(c+1), hence p^2 <= (n*(c+1))^2
    assert(p <= n * (c + 1)) by (nonlinear_arith)
        requires
            p == n * c + p % n,
            p % n < n;
    assert(UNIT * UNIT * (a * a) <= n * n * ((c + 1) * (c + 1))) by (nonlinear_arith)
        requires
            0 <= p,
            p <= n * (c + 1),
            p == a * UNIT,
            0 <= a,
            UNIT == 65536;
}

/// `(a * b) / d` with the division rounding toward zero (the division is
/// done on the magnitude of the product).
pub open spec fn mul_div_spec(a: int, b: int, d: int) -> int {
    let p = a * b;
    if p >= 0 {
        p / d
    } else {
        -((-p) / d)
    }
}

proof fn lemma_abs_mul(a: int, b: int)
    by (nonlinear_arith)
    ensures
        abs_i(a * b) == abs_i(a) * abs_i(b),
{
}

/// `(a * b) / d`, rounding toward zero.
pub fn mul_div(a: i64, b: i64, d: i64) -> (r: i64)
    requires
        1 <= d,
        i64::MIN < a,
        i64::MIN < b,
        abs_i(a as int) * abs_i(b as int) <= 0x4000_0000_0000_0000,
    ensures
        r == mul_div_spec(a as int, b as int, d as int),
        abs_i(r as int) * (d as int) <= abs_i(a as int) * abs_i(b as int),
        abs_i(r as int) <= abs_i(a as int) * abs_i(b as int) / (d as int),
        (a as int) * (b as int) >= 0 ==> 0 <= r as int && (r as int) * (d as int) <= (a as int) * (
        b as int),
        (a as int) * (b as int) <= 0 ==> r as int <= 0 && (a as int) * (b as int) <= (r as int) * (
        d as int),
{
    proof {
        lemma_abs_mul(a as int, b as int);
    }
    let ma: u64 = if a >= 0 {
        a as u64
    } else {
        (-a) as u64
    };
    let mb: u64 = if b >= 0 {
        b as u64
    } else {
        (-b) as u64
    };
    let prod: u64 = ma * mb;
    let q: u64 = prod / (d as u64);
    proof {
        lemma_fundamental_div_mod(prod as int, d as int);
        assert(abs_i((a as int) * (b as int)) == prod);
        assert((q as int) * (d as int) <= prod as int) by (nonlinear_arith)
            requires
                prod as int == (d as int) * (q as int) + (prod as int) % (d as int),
                0 <= (prod as int) % (d as int);
    }
    let neg = (a < 0) != (b < 0);
    let r: i64 = if neg {
        -(q as i64)
    } else {
        q as i64
    };
    proof {
        assert((a as int) * (b as int) >= 0 <==> (prod == 0 || !neg)) by (nonlinear_arith)
            requires
                prod == abs_i((a as int) * (b as int)),
                (ma == abs_i(a as int) && mb == abs_i(b as int)),
                prod == ma * mb,
                neg == ((a < 0) != (b < 0));
        assert((a as int) * (b as int) >= 0 ==> 0 <= r as int && (r as int) * (d as int) <= (
        a as int) * (b as int)) by (nonlinear_arith)
            requires
                prod == abs_i((a as int) * (b as int)),
                (q as int) * (d as int) <= prod as int,
                ((a as int) * (b as int) >= 0 <==> (prod == 0 || !neg)),
                (r as int == if neg { -(q as int) } else { q as int }),
                q >= 0,
                d >= 1;
        assert((a as int) * (b as int) <= 0 ==> r as int <= 0 && (a as int) * (b as int) <= (
        r as int) * (d as int)) by (nonlinear_arith)
            requires
                prod == abs_i((a as int) * (b as int)),
                (q as int) * (d as int) <= prod as int,
                ((a as int) * (b as int) >= 0 <==> (prod == 0 || !neg)),
                (r as int == if neg { -(q as int) } else { q as int }),
                q >= 0,
                d >= 1;
    }
    r
}

/// Saturating signed addition.
pub open spec fn sat_add_spec(a: int, b: int) -> int {
    if a + b > i64::MAX as int {
        i64::MAX as int
    } else if a + b < i64::MIN as int {
        i64::MIN as int
    } else {
        a + b
    }
}

/// Add two signed values, clamping at the ends of the `i64` range.
pub fn sat_add(a: i64, b: i64) -> (r: i64)
    ensures
        r == sat_add_spec(a as int, b as int),
{
    if b >= 0 {
        if a > i64::MAX - b {
            i64::MAX
        } else {
            a + b
        }
    } else {
        if a < i64::MIN - b {
            i64::MIN
        } else {
            a + b
        }
    }
}

/// Spec-level normalization: scale the vector to the unit sphere, or fall
/// back to the unit vector along `x` when the input is too short to divide
/// by safely.
pub open spec fn normalize_spec(v: Vec3Fx) -> Vec3Fx {
    let n = spec_isqrt(norm_sq(v));
    if n < MIN_NORM {
        Vec3Fx { x: UNIT, y: 0, z: 0 }
    } else {
        Vec3Fx {
            x: scale_comp_spec(v.x as int, n) as i64,
            y: scale_comp_spec(v.y as int, n) as i64,
            z: scale_comp_spec(v.z as int, n) as i64,
        }
    }
}

/// Scale `v` onto the unit sphere.  Total: an input too short to divide by
/// (which never arises for the meshes built here) yields the unit vector
/// along `x`, so the result is always on the unit sphere.
pub fn normalize(v: Vec3Fx) -> (r: Vec3Fx)
    requires
        coords_bounded(v, NORMALIZE_COORD_LIMIT as int),
    ensures
        r == normalize_spec(v),
        on_unit_sphere(r),
        coords_bounded(r, UNIT as int),
{
    proof {
        assert(v.x * v.x >= 0 && v.y * v.y >= 0 && v.z * v.z >= 0) by (nonlinear_arith);
        assert(v.x * v.x <= 0x400_0000_0000_0000 && v.y * v.y <= 0x400_0000_0000_0000 && v.z
            * v.z <= 0x400_0000_0000_0000) by (nonlinear_arith)
            requires
                coords_bounded(v, NORMALIZE_COORD_LIMIT as int),
                NORMALIZE_COORD_LIMIT == 0x2000_0000;
    }
    let s: i64 = v.x * v.x + v.y * v.y + v.z * v.z;
    let n = isqrt64(s as u64);
    proof {
        lemma_isqrt_unique(s as int, n as int, spec_isqrt(s as int));
    }
    if n < MIN_NORM {
        Vec3Fx { x: UNIT, y: 0, z: 0 }
    } else {
        proof {
            assert(n <= 0x1_0000_0000) by (nonlinear_arith)
                requires
                    (n as int) * (n as int) <= s as int,
                    s <= 0x7fff_ffff_ffff_ffff,
                    n >= 0;
        }
        let rx = scale_comp(v.x, n);
        let ry = scale_comp(v.y, n);
        let rz = scale_comp(v.z, n);
        proof {
            lemma_scaled_norm(
                v.x as int,
                v.y as int,
                v.z as int,
                n as int,
                rx as int,
                ry as int,
                rz as int,
            );
        }
        Vec3Fx { x: rx, y: ry, z: rz }
    }
}

} // verus!
