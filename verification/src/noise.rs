//! 3-D Perlin noise and fractal (multi-octave) composition, in fixed point.
//!
//! The noise field is a pure function of its permutation table and the input
//! coordinates: there is no global mutable seed, so every sample point
//! yields the same value on every call.  The table has 256 entries,
//! duplicated to 512 so second-level lookups never wrap.  The field repeats
//! with a period of 256 length units; inputs are reduced into one period
//! before sampling.

use vstd::prelude::*;
use vstd::arithmetic::div_mod::lemma_fundamental_div_mod;
use vstd::arithmetic::div_mod::lemma_fundamental_div_mod_converse;
use crate::fixed::UNIT;
use crate::fixed::abs_i;
use crate::fixed::mul_div;
use crate::fixed::mul_div_spec;

verus! {

/// The noise field repeats every `PERIOD` raw coordinate ticks (256 length
/// units).
pub const PERIOD: i64 = 0x100_0000;

/// Largest coordinate magnitude `perlin3` accepts.
pub const PERLIN_COORD_LIMIT: i64 = 0x4000_0000_0000;

/// Largest coordinate magnitude `fbm` accepts.
pub const FBM_COORD_LIMIT: i64 = 0x100_0000;

/// Largest frequency scale `fbm` accepts.
pub const FBM_SCALE_LIMIT: i64 = 0x40_0000;

/// Most octaves `fbm` accepts.
pub const FBM_MAX_OCTAVES: u32 = 16;

/// Linear interpolation from `a` to `b` by `t / UNIT`, rounding toward zero
/// on the scaled difference.
pub open spec fn lerp_spec(a: int, b: int, t: int) -> int {
    a + mul_div_spec(b - a, t, UNIT as int)
}

/// The fade polynomial `6s^5 - 15s^4 + 10s^3` at `s = t / UNIT`, evaluated
/// in fixed point with truncating divisions and clamped to one unit.
pub open spec fn fade_spec(t: int) -> int {
    let t2 = (t * t) / (UNIT as int);
    let t3 = (t2 * t) / (UNIT as int);
    let poly = 6 * t * t + 10 * (UNIT as int) * (UNIT as int) - 15 * t * (UNIT as int);
    let f = (t3 * poly) / ((UNIT as int) * (UNIT as int));
    if f > UNIT as int {
        UNIT as int
    } else {
        f
    }
}

/// Gradient dot product for one lattice corner, selected by the low four
/// bits of the hashed corner id.
pub open spec fn grad_spec(h: u8, x: int, y: int, z: int) -> int {
    let hi = (h as int) % 16;
    if hi == 0 {
        x + y
    } else if hi == 1 {
        -x + y
    } else if hi == 2 {
        x - y
    } else if hi == 3 {
        -x - y
    } else if hi == 4 {
        x + z
    } else if hi == 5 {
        -x + z
    } else if hi == 6 {
        x - z
    } else if hi == 7 {
        -x - z
    } else if hi == 8 {
        y + z
    } else if hi == 9 {
        -y + z
    } else if hi == 10 {
        y - z
    } else if hi == 11 {
        -y - z
    } else if hi == 12 {
        y + x
    } else if hi == 13 {
        -y + z
    } else if hi == 14 {
        y - x
    } else {
        -y - z
    }
}

/// Perlin noise on coordinates already reduced into `[0, PERIOD)`.
#[verifier::opaque]
pub open spec fn perlin_core_spec(perm: Seq<u8>, ux: int, uy: int, uz: int) -> int {
    let u = UNIT as int;
    let xi = ux / u;
    let yi = uy / u;
    let zi = uz / u;
    let xf = ux % u;
    let yf = uy % u;
    let zf = uz % u;
    let fu = fade_spec(xf);
    let fv = fade_spec(yf);
    let fw = fade_spec(zf);
    let a = (perm[xi] as int) + yi;
    let aa = (perm[a] as int) + zi;
    let ab = (perm[a + 1] as int) + zi;
    let b = (perm[xi + 1] as int) + yi;
    let ba = (perm[b] as int) + zi;
    let bb = (perm[b + 1] as int) + zi;
    let g000 = grad_spec(perm[aa], xf, yf, zf);
    let g100 = grad_spec(perm[ba], xf - u, yf, zf);
    let g010 = grad_spec(perm[ab], xf, yf - u, zf);
    let g110 = grad_spec(perm[bb], xf - u, yf - u, zf);
    let g001 = grad_spec(perm[aa + 1], xf, yf, zf - u);
    let g101 = grad_spec(perm[ba + 1], xf - u, yf, zf - u);
    let g011 = grad_spec(perm[ab + 1], xf, yf - u, zf - u);
    let g111 = grad_spec(perm[bb + 1], xf - u, yf - u, zf - u);
    let x00 = lerp_spec(g000, g100, fu);
    let x10 = lerp_spec(g010, g110, fu);
    let x01 = lerp_spec(g001, g101, fu);
    let x11 = lerp_spec(g011, g111, fu);
    let y0 = lerp_spec(x00, x10, fv);
    let y1 = lerp_spec(x01, x11, fv);
    lerp_spec(y0, y1, fw)
}

/// Perlin noise at an arbitrary point: the coordinates are reduced into one
/// period of the repeating field.
pub open spec fn perlin_spec(perm: Seq<u8>, x: int, y: int, z: int) -> int {
    perlin_core_spec(
        perm,
        x % (PERIOD as int),
        y % (PERIOD as int),
        z % (PERIOD as int),
    )
}

/// A coordinate scaled by the octave frequency `f / UNIT`.
pub open spec fn coord_scaled(x: int, f: int) -> int {
    mul_div_spec(x, f, UNIT as int)
}

/// Sum and total amplitude of `oct` octaves, starting at frequency `freq`
/// and amplitude `amp`, with the amplitude decaying by `pers / UNIT` and
/// the frequency doubling per octave.
pub open spec fn fbm_acc(
    perm: Seq<u8>,
    x: int,
    y: int,
    z: int,
    oct: nat,
    pers: int,
    freq: int,
    amp: int,
) -> (int, int)
    decreases oct,
{
    if oct == 0 {
        (0, 0)
    } else {
        let n = perlin_spec(
            perm,
            coord_scaled(x, freq),
            coord_scaled(y, freq),
            coord_scaled(z, freq),
        );
        let part = mul_div_spec(n, amp, UNIT as int);
        let rest = fbm_acc(
            perm,
            x,
            y,
            z,
            (oct - 1) as nat,
            pers,
            freq * 2,
            (amp * pers) / (UNIT as int),
        );
        (part + rest.0, amp + rest.1)
    }
}

/// Fractal noise: the octave sum normalized by the total amplitude.
pub open spec fn fbm_spec(
    perm: Seq<u8>,
    x: int,
    y: int,
    z: int,
    octaves: nat,
    pers: int,
    scale: int,
) -> int {
    let acc = fbm_acc(perm, x, y, z, octaves, pers, scale, UNIT as int);
    mul_div_spec(acc.0, UNIT as int, acc.1)
}

/// One-octave fractal noise is plain Perlin noise at the scaled point: with
/// a single octave the amplitude normalization cancels exactly.
pub proof fn lemma_fbm_single_octave(perm: Seq<u8>, x: int, y: int, z: int, pers: int, scale: int)
    ensures
        fbm_spec(perm, x, y, z, 1, pers, scale) == perlin_spec(
            perm,
            coord_scaled(x, scale),
            coord_scaled(y, scale),
            coord_scaled(z, scale),
        ),
{
    let u = UNIT as int;
    let n = perlin_spec(perm, coord_scaled(x, scale), coord_scaled(y, scale), coord_scaled(z, scale));
    let acc = fbm_acc(perm, x, y, z, 1, pers, scale, u);
    assert(fbm_acc(perm, x, y, z, 0, pers, scale * 2, (u * pers) / u) == (0int, 0int));
    assert(acc.0 == mul_div_spec(n, u, u) && acc.1 == u);
    lemma_mul_div_unit_exact(n);
    assert(acc.0 == n);
    lemma_mul_div_unit_exact(n);
    assert(fbm_spec(perm, x, y, z, 1, pers, scale) == mul_div_spec(n, u, u));
}

/// `(n * UNIT) / UNIT` rounds to exactly `n`, whatever the sign of `n`.
proof fn lemma_mul_div_unit_exact(n: int)
    ensures
        mul_div_spec(n, UNIT as int, UNIT as int) == n,
{
    let u = UNIT as int;
    if n >= 0 {
        assert((n * u) / u == n) by (nonlinear_arith)
            requires
                u == 65536,
                n >= 0;
    } else {
        assert(n * u < 0) by (nonlinear_arith)
            requires
                u == 65536,
                n < 0;
        assert((-(n * u)) / u == -n) by (nonlinear_arith)
            requires
                u == 65536,
                n < 0;
    }
}

/// The 3-D noise field: a 256-entry permutation table duplicated to 512.
pub struct NoiseField {
    perm: Vec<u8>,
}

impl NoiseField {
    /// The permutation table as the contracts see it.
    pub closed spec fn table(self) -> Seq<u8> {
        self.perm@
    }

    /// The table has 512 entries, the second half repeating the first.
    pub closed spec fn wf(self) -> bool {
        &&& self.perm@.len() == 512
        &&& forall|i: int| 0 <= i < 256 ==> self.perm@[i + 256] == #[trigger] self.perm@[i]
    }

    /// Build the noise field with its fixed permutation table.
    pub fn new() -> (r: NoiseField)
        ensures
            r.wf(),
    {
        let mut perm: Vec<u8> = vec![
            151, 160, 137, 91, 90, 15, 131, 13, 201, 95, 96, 53, 194, 233, 7, 225, 140, 36, 103,
            30, 69, 142, 8, 99, 37, 240, 21, 10, 23, 190, 6, 148, 247, 120, 234, 75, 0, 26, 197,
            62, 94, 252, 219, 203, 117, 35, 11, 32, 57, 177, 33, 88, 237, 149, 56, 87, 174, 20,
            125, 136, 171, 168, 68, 175, 74, 165, 71, 134, 139, 48, 27, 166, 77, 146, 158, 231,
            83, 111, 229, 122, 60, 211, 133, 230, 220, 105, 92, 41, 55, 46, 245, 40, 244, 102,
            143, 54, 65, 25, 63, 161, 1, 216, 80, 73, 209, 76, 132, 187, 208, 89, 18, 169, 200,
            196, 135, 130, 116, 188, 159, 86, 164, 100, 109, 198, 173, 186, 3, 64, 52, 217, 226,
            250, 124, 123, 5, 202, 38, 147, 118, 126, 255, 82, 85, 212, 207, 206, 59, 227, 47, 16,
            58, 17, 182, 189, 28, 42, 223, 183, 170, 213, 119, 248, 152, 2, 44, 154, 163, 70, 221,
            153, 101, 155, 167, 43, 172, 9, 129, 22, 39, 253, 19, 98, 108, 110, 79, 113, 224, 232,
            178, 185, 112, 104, 218, 246, 97, 228, 251, 34, 242, 193, 238, 210, 144, 12, 191, 179,
            162, 241, 81, 51, 145, 235, 249, 14, 239, 107, 49, 192, 214, 31, 181, 199, 106, 157,
            184, 84, 204, 176, 115, 121, 50, 45, 127, 4, 150, 254, 138, 236, 205, 93, 222, 114,
            67, 29, 24, 72, 243, 141, 128, 195, 78, 66, 215, 61, 156, 180,
        ];
        let mut i: usize = 0;
        while i < 256
            invariant
                i <= 256,
                perm@.len() == 256 + i,
                forall|j: int| 0 <= j < i ==> perm@[j + 256] == #[trigger] perm@[j],
            decreases 256 - i,
        {
            let v = perm[i];
            perm.push(v);
            i += 1;
        }
        NoiseField { perm }
    }

    /// Deterministic 3-D Perlin noise; the result stays within two units of
    /// zero.
    pub fn perlin3(&self, x: i64, y: i64, z: i64) -> (r: i64)
        requires
            self.wf(),
            -PERLIN_COORD_LIMIT <= x <= PERLIN_COORD_LIMIT,
            -PERLIN_COORD_LIMIT <= y <= PERLIN_COORD_LIMIT,
            -PERLIN_COORD_LIMIT <= z <= PERLIN_COORD_LIMIT,
        ensures
            r == perlin_spec(self.table(), x as int, y as int, z as int),
            -2 * UNIT <= r <= 2 * UNIT,
    {
        let ux = reduce_period(x);
        let uy = reduce_period(y);
        let uz = reduce_period(z);
        let xi = (ux / 65536) as usize;
        let yi = (uy / 65536) as usize;
        let zi = (uz / 65536) as usize;
        let xf = (ux % 65536) as i64;
        let yf = (uy % 65536) as i64;
        let zf = (uz % 65536) as i64;
        let fu = fade(xf as u64) as i64;
        let fv = fade(yf as u64) as i64;
        let fw = fade(zf as u64) as i64;
        let a = self.perm[xi] as usize + yi;
        let aa = self.perm[a] as usize + zi;
        let ab = self.perm[a + 1] as usize + zi;
        let b = self.perm[xi + 1] as usize + yi;
        let ba = self.perm[b] as usize + zi;
        let bb = self.perm[b + 1] as usize + zi;
        let xfm = xf - UNIT;
        let yfm = yf - UNIT;
        let zfm = zf - UNIT;
        let g000 = grad(self.perm[aa], xf, yf, zf);
        let g100 = grad(self.perm[ba], xfm, yf, zf);
        let g010 = grad(self.perm[ab], xf, yfm, zf);
        let g110 = grad(self.perm[bb], xfm, yfm, zf);
        let g001 = grad(self.perm[aa + 1], xf, yf, zfm);
        let g101 = grad(self.perm[ba + 1], xfm, yf, zfm);
        let g011 = grad(self.perm[ab + 1], xf, yfm, zfm);
        let g111 = grad(self.perm[bb + 1], xfm, yfm, zfm);
        let x00 = lerp(g000, g100, fu);
        let x10 = lerp(g010, g110, fu);
        let x01 = lerp(g001, g101, fu);
        let x11 = lerp(g011, g111, fu);
        let y0 = lerp(x00, x10, fv);
        let y1 = lerp(x01, x11, fv);
        let r = lerp(y0, y1, fw);
        proof {
            reveal(perlin_core_spec);
            assert(r == perlin_core_spec(self.table(), ux as int, uy as int, uz as int));
        }
        r
    }

    /// Fractal noise: `octaves` Perlin samples at doubling frequency and
    /// `persistence`-decaying amplitude, normalized by the total amplitude.
    /// The result stays within two units of zero.
    pub fn fbm(
        &self,
        x: i64,
        y: i64,
        z: i64,
        octaves: u32,
        persistence: i64,
        scale: i64,
    ) -> (r: i64)
        requires
            self.wf(),
            1 <= octaves <= FBM_MAX_OCTAVES,
            1 <= persistence <= UNIT,
            1 <= scale <= FBM_SCALE_LIMIT,
            -FBM_COORD_LIMIT <= x <= FBM_COORD_LIMIT,
            -FBM_COORD_LIMIT <= y <= FBM_COORD_LIMIT,
            -FBM_COORD_LIMIT <= z <= FBM_COORD_LIMIT,
        ensures
            r == fbm_spec(
                self.table(),
                x as int,
                y as int,
                z as int,
                octaves as nat,
                persistence as int,
                scale as int,
            ),
            -2 * UNIT <= r <= 2 * UNIT,
    {
        let mut sum: i64 = 0;
        let mut total: i64 = 0;
        let mut freq: i64 = scale;
        let mut amp: i64 = UNIT;
        let mut k: u32 = 0;
        proof {
            assert(pow2_spec(0) == 1);
            assert(scale * pow2_spec(0) == scale) by (nonlinear_arith)
                requires
                    pow2_spec(0) == 1;
        }
        while k < octaves
            invariant
                self.wf(),
                1 <= octaves <= FBM_MAX_OCTAVES,
                1 <= persistence <= UNIT,
                1 <= scale <= FBM_SCALE_LIMIT,
                -FBM_COORD_LIMIT <= x <= FBM_COORD_LIMIT,
                -FBM_COORD_LIMIT <= y <= FBM_COORD_LIMIT,
                -FBM_COORD_LIMIT <= z <= FBM_COORD_LIMIT,
                k <= octaves,
                1 <= freq,
                freq <= scale * pow2_spec(k as nat),
                pow2_spec(k as nat) <= 0x1_0000,
                0 <= amp <= UNIT,
                k == 0 ==> amp == UNIT,
                0 <= total <= k * (UNIT as int),
                k > 0 ==> UNIT <= total,
                abs_i(sum as int) <= 2 * total,
                ({
                    let whole = fbm_acc(
                        self.table(),
                        x as int,
                        y as int,
                        z as int,
                        octaves as nat,
                        persistence as int,
                        scale as int,
                        UNIT as int,
                    );
                    let rest = fbm_acc(
                        self.table(),
                        x as int,
                        y as int,
                        z as int,
                        (octaves - k) as nat,
                        persistence as int,
                        freq as int,
                        amp as int,
                    );
                    whole.0 == sum + rest.0 && whole.1 == total + rest.1
                }),
            decreases octaves - k,
        {
            proof {
                lemma_pow2_monotone((k + 1) as nat, FBM_MAX_OCTAVES as nat);
                reveal_with_fuel(pow2_spec, 17);
                assert(pow2_spec(FBM_MAX_OCTAVES as nat) == 0x1_0000);
                assert(freq <= 0x40_0000_0000) by (nonlinear_arith)
                    requires
                        freq <= scale * pow2_spec(k as nat),
                        1 <= scale <= 0x40_0000,
                        pow2_spec(k as nat) <= 0x1_0000;
                assert(abs_i(x as int) * abs_i(freq as int) <= 0x4000_0000_0000_0000
                    && abs_i(y as int) * abs_i(freq as int) <= 0x4000_0000_0000_0000 && abs_i(
                    z as int,
                ) * abs_i(freq as int) <= 0x4000_0000_0000_0000) by (nonlinear_arith)
                    requires
                        -0x100_0000 <= x <= 0x100_0000,
                        -0x100_0000 <= y <= 0x100_0000,
                        -0x100_0000 <= z <= 0x100_0000,
                        1 <= freq <= 0x40_0000_0000;
            }
            let wx = mul_div(x, freq, UNIT);
            let wy = mul_div(y, freq, UNIT);
            let wz = mul_div(z, freq, UNIT);
            proof {
                assert(abs_i(wx as int) <= PERLIN_COORD_LIMIT && abs_i(wy as int)
                    <= PERLIN_COORD_LIMIT && abs_i(wz as int) <= PERLIN_COORD_LIMIT)
                    by (nonlinear_arith)
                    requires
                        abs_i(wx as int) * (UNIT as int) <= abs_i(x as int) * abs_i(freq as int),
                        abs_i(wy as int) * (UNIT as int) <= abs_i(y as int) * abs_i(freq as int),
                        abs_i(wz as int) * (UNIT as int) <= abs_i(z as int) * abs_i(freq as int),
                        -0x100_0000 <= x <= 0x100_0000,
                        -0x100_0000 <= y <= 0x100_0000,
                        -0x100_0000 <= z <= 0x100_0000,
                        1 <= freq <= 0x40_0000_0000,
                        UNIT == 65536,
                        PERLIN_COORD_LIMIT == 0x4000_0000_0000;
            }
            let n = self.perlin3(wx, wy, wz);
            proof {
                assert(abs_i(n as int) * abs_i(amp as int) <= 0x4000_0000_0000_0000)
                    by (nonlinear_arith)
                    requires
                        -131072 <= n <= 131072,
                        0 <= amp <= 65536;
            }
            let part = mul_div(n, amp, UNIT);
            proof {
                assert(abs_i(part as int) <= 2 * amp) by (nonlinear_arith)
                    requires
                        abs_i(part as int) * (UNIT as int) <= abs_i(n as int) * abs_i(
                            amp as int,
                        ),
                        abs_i(n as int) <= 2 * UNIT,
                        0 <= amp,
                        abs_i(amp as int) == amp as int,
                        UNIT == 65536;
            }
            sum = sum + part;
            total = total + amp;
            let ghost amp0 = amp;
            proof {
                assert(abs_i(amp as int) * abs_i(persistence as int) <= 0x4000_0000_0000_0000)
                    by (nonlinear_arith)
                    requires
                        0 <= amp <= 65536,
                        1 <= persistence <= 65536;
            }
            amp = mul_div(amp, persistence, UNIT);
            proof {
                assert(amp as int == ((amp0 as int) * (persistence as int)) / (UNIT as int));
                assert(0 <= amp && amp <= UNIT) by (nonlinear_arith)
                    requires
                        amp as int == ((amp0 as int) * (persistence as int)) / (UNIT as int),
                        0 <= amp0 <= UNIT,
                        1 <= persistence <= UNIT,
                        UNIT == 65536;
            }
            proof {
                assert(pow2_spec((k + 1) as nat) == 2 * pow2_spec(k as nat));
                assert(freq * 2 <= scale * pow2_spec((k + 1) as nat)) by (nonlinear_arith)
                    requires
                        freq <= scale * pow2_spec(k as nat),
                        pow2_spec((k + 1) as nat) == 2 * pow2_spec(k as nat),
                        scale >= 1;
            }
            freq = freq * 2;
            k = k + 1;
        }
        proof {
            assert(abs_i(sum as int) * abs_i(UNIT as int) <= 0x4000_0000_0000_0000)
                by (nonlinear_arith)
                requires
                    abs_i(sum as int) <= 2 * (total as int),
                    0 <= total <= 16 * 65536,
                    UNIT == 65536;
        }
        let r = mul_div(sum, UNIT, total);
        proof {
            assert(abs_i(r as int) * (total as int) <= abs_i(sum as int) * (UNIT as int));
            assert(abs_i(r as int) <= 2 * UNIT) by (nonlinear_arith)
                requires
                    abs_i(r as int) * (total as int) <= abs_i(sum as int) * (UNIT as int),
                    abs_i(sum as int) <= 2 * (total as int),
                    total >= UNIT,
                    UNIT == 65536;
        }
        r
    }
}

/// `2^n`.
pub open spec fn pow2_spec(n: nat) -> nat
    decreases n,
{
    if n == 0 {
        1
    } else {
        2 * pow2_spec((n - 1) as nat)
    }
}

proof fn lemma_pow2_monotone(i: nat, j: nat)
    requires
        i <= j,
    ensures
        pow2_spec(i) <= pow2_spec(j),
    decreases j,
{
    if i < j {
        lemma_pow2_monotone(i, (j - 1) as nat);
    }
}

/// Reduce a coordinate into `[0, PERIOD)`; the noise field has period
/// `PERIOD`, so the sample is unchanged.
fn reduce_period(w: i64) -> (r: u64)
    requires
        -PERLIN_COORD_LIMIT <= w <= PERLIN_COORD_LIMIT,
    ensures
        r as int == (w as int) % (PERIOD as int),
        r < PERIOD,
{
    let p: u64 = 0x100_0000;
    if w >= 0 {
        (w as u64) % p
    } else {
        let m = ((-w) as u64) % p;
        proof {
            lemma_fundamental_div_mod(-(w as int), p as int);
            let q = (-(w as int)) / (p as int);
            if m == 0 {
                assert(w as int == (p as int) * (-q) + 0) by (nonlinear_arith)
                    requires
                        -(w as int) == (p as int) * q + 0;
                lemma_fundamental_div_mod_converse(w as int, p as int, -q, 0);
            } else {
                assert(w as int == (p as int) * (-q - 1) + ((p as int) - m)) by (nonlinear_arith)
                    requires
                        -(w as int) == (p as int) * q + (m as int),
                        p == 0x100_0000;
                lemma_fundamental_div_mod_converse(w as int, p as int, -q - 1, (p as int) - m);
            }
        }
        if m == 0 {
            0
        } else {
            p - m
        }
    }
}

/// The fade curve on a fractional offset `t` in `[0, UNIT)`.
fn fade(t: u64) -> (r: u64)
    requires
        t < UNIT,
    ensures
        r as int == fade_spec(t as int),
        r <= UNIT,
{
    let u: u64 = 65536;
    proof {
        assert(t * t < 0x1_0000_0000 && 6 * t * t + 10 * u * u >= 15 * t * u && 6 * t * t + 10 * u
            * u <= 0x10_0000_0000) by (nonlinear_arith)
            requires
                0 <= t < u,
                u == 65536;
    }
    let t2 = (t * t) / u;
    proof {
        assert(t2 <= u && t2 * t < 0x1_0000_0000_0000) by (nonlinear_arith)
            requires
                t < u,
                u == 65536,
                t2 as int == ((t as int) * (t as int)) / (u as int);
    }
    let t3 = (t2 * t) / u;
    let poly = 6 * t * t + 10 * u * u - 15 * t * u;
    proof {
        assert(t3 <= u) by (nonlinear_arith)
            requires
                t < u,
                u == 65536,
                t2 <= u,
                t3 as int == ((t2 as int) * (t as int)) / (u as int);
        assert(t3 * poly <= 0x10_0000_0000_0000) by (nonlinear_arith)
            requires
                0 <= t3 <= u,
                0 <= poly <= 0x10_0000_0000,
                u == 65536;
    }
    let f = (t3 * poly) / (u * u);
    if f > u {
        u
    } else {
        f
    }
}

/// Gradient dot product for one lattice corner.
fn grad(h: u8, x: i64, y: i64, z: i64) -> (r: i64)
    requires
        -UNIT <= x <= UNIT,
        -UNIT <= y <= UNIT,
        -UNIT <= z <= UNIT,
    ensures
        r as int == grad_spec(h, x as int, y as int, z as int),
        -2 * UNIT <= r <= 2 * UNIT,
{
    let hi = h % 16;
    if hi == 0 {
        x + y
    } else if hi == 1 {
        -x + y
    } else if hi == 2 {
        x - y
    } else if hi == 3 {
        -x - y
    } else if hi == 4 {
        x + z
    } else if hi == 5 {
        -x + z
    } else if hi == 6 {
        x - z
    } else if hi == 7 {
        -x - z
    } else if hi == 8 {
        y + z
    } else if hi == 9 {
        -y + z
    } else if hi == 10 {
        y - z
    } else if hi == 11 {
        -y - z
    } else if hi == 12 {
        y + x
    } else if hi == 13 {
        -y + z
    } else if hi == 14 {
        y - x
    } else {
        -y - z
    }
}

/// Linear interpolation from `a` to `b` by `t / UNIT`; the result stays
/// between `a` and `b`.
fn lerp(a: i64, b: i64, t: i64) -> (r: i64)
    requires
        0 <= t <= UNIT,
        -2 * UNIT <= a <= 2 * UNIT,
        -2 * UNIT <= b <= 2 * UNIT,
    ensures
        r as int == lerp_spec(a as int, b as int, t as int),
        -2 * UNIT <= r <= 2 * UNIT,
{
    let d = b - a;
    proof {
        assert(abs_i(d as int) * abs_i(t as int) <= 0x4000_0000_0000_0000) by (nonlinear_arith)
            requires
                -0x8_0000 <= d <= 0x8_0000,
                0 <= t <= 65536;
    }
    let step = mul_div(d, t, UNIT);
    proof {
        if d >= 0 {
            assert((d as int) * (t as int) >= 0) by (nonlinear_arith)
                requires
                    d >= 0 && t >= 0;
            assert(step <= d) by (nonlinear_arith)
                requires
                    (step as int) * 65536 <= (d as int) * (t as int),
                    0 <= t <= 65536,
                    d >= 0,
                    step >= 0;
        } else {
            assert((d as int) * (t as int) <= 0) by (nonlinear_arith)
                requires
                    d < 0 && t >= 0;
            assert(d <= step) by (nonlinear_arith)
                requires
                    (d as int) * (t as int) <= (step as int) * 65536,
                    0 <= t <= 65536,
                    d < 0,
                    step <= 0;
        }
    }
    a + step
}

} // verus!
