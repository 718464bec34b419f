use planet_lod::NoiseField;
use planet_lod::ColorPoint;
use planet_lod::UNIT;
use planet_lod::fixed::mul_div;
use planet_lod::terrain::get_biome_index;
use planet_lod::terrain::get_color_from_noise;
use planet_lod::terrain::smoothstep;
use planet_lod::terrain::push_stop;

#[test]
fn test_perlin_deterministic() {
    let a = NoiseField::new();
    let b = NoiseField::new();
    let samples = [
        (0i64, 0i64, 0i64),
        (12345, -54321, 7777),
        (65536, 131072, -65536),
        (999_999, 123, -999_999),
    ];
    for &(x, y, z) in &samples {
        let va = a.perlin3(x, y, z);
        assert_eq!(va, a.perlin3(x, y, z));
        assert_eq!(va, b.perlin3(x, y, z));
    }
}

#[test]
fn test_perlin_range() {
    let nf = NoiseField::new();
    for i in -20i64..20 {
        for j in -5i64..5 {
            let r = nf.perlin3(i * 13333, j * 41111, i * 7 + j * 311);
            assert!(r >= -2 * UNIT && r <= 2 * UNIT);
        }
    }
}

#[test]
fn test_fbm_single_octave_reduces_to_perlin() {
    let nf = NoiseField::new();
    let cases = [
        (40000i64, -30000i64, 20000i64, 32768i64, 131072i64),
        (-65536, 65536, 12345, 58982, 52429),
        (1, 2, 3, 65536, 327680),
    ];
    for &(x, y, z, pers, scale) in &cases {
        let wx = mul_div(x, scale, UNIT);
        let wy = mul_div(y, scale, UNIT);
        let wz = mul_div(z, scale, UNIT);
        assert_eq!(nf.fbm(x, y, z, 1, pers, scale), nf.perlin3(wx, wy, wz));
    }
}

#[test]
fn test_fbm_range() {
    let nf = NoiseField::new();
    for i in -8i64..8 {
        let r = nf.fbm(i * 9999, -i * 555, i * 123, 8, 58982, 131072);
        assert!(r >= -2 * UNIT && r <= 2 * UNIT);
    }
}

#[test]
fn test_smoothstep_midpoint_exact() {
    // t = 1/2: 3t^2 - 2t^3 = 1/2 exactly in fixed point
    assert_eq!(smoothstep(0, UNIT, UNIT / 2), UNIT / 2);
    assert_eq!(smoothstep(0, UNIT, 0), 0);
    assert_eq!(smoothstep(0, UNIT, UNIT), UNIT);
    assert_eq!(smoothstep(0, UNIT, -5 * UNIT), 0);
    assert_eq!(smoothstep(0, UNIT, 5 * UNIT), UNIT);
}

#[test]
fn test_color_point_from_hex_exact() {
    let c = ColorPoint::from_hex(0xFF8000, 42);
    assert_eq!(c.key, 42);
    assert_eq!(c.color.x, 65536);
    assert_eq!(c.color.y, 128 * 65536 / 255);
    assert_eq!(c.color.z, 0);
}

#[test]
fn test_biome_decision_table() {
    let sea = 65405i64;
    let warm = 50000i64;
    let mild = 30000i64;
    let cold = 1000i64;
    let dry = 10000i64;
    let wet = 40000i64;
    // under water
    assert_eq!(get_biome_index(warm, wet, sea - 1, sea), 0);
    // warm and dry: desert
    assert_eq!(get_biome_index(warm, dry, sea + 1, sea), 1);
    // warm and wet: forest
    assert_eq!(get_biome_index(warm, wet, sea + 1, sea), 2);
    // mild and dry: tundra
    assert_eq!(get_biome_index(mild, dry, sea + 1, sea), 3);
    // mild and wet: forest
    assert_eq!(get_biome_index(mild, wet, sea + 1, sea), 2);
    // cold and dry: tundra
    assert_eq!(get_biome_index(cold, dry, sea + 1, sea), 3);
    // cold and wet: snow
    assert_eq!(get_biome_index(cold, wet, sea + 1, sea), 5);
}

#[test]
fn test_palette_sampling() {
    let mut p: Vec<ColorPoint> = Vec::new();
    push_stop(
        &mut p,
        ColorPoint::new(
            planet_lod::Vec3Fx { x: 0, y: 0, z: 0 },
            0,
        ),
    );
    push_stop(
        &mut p,
        ColorPoint::new(
            planet_lod::Vec3Fx { x: UNIT, y: UNIT, z: 0 },
            UNIT,
        ),
    );
    // below the first key: first color
    let c = get_color_from_noise(-12345, &p);
    assert_eq!((c.x, c.y, c.z), (0, 0, 0));
    // above the last key: last color
    let c = get_color_from_noise(2 * UNIT, &p);
    assert_eq!((c.x, c.y, c.z), (UNIT, UNIT, 0));
    // midway: the exact midpoint blend
    let c = get_color_from_noise(UNIT / 2, &p);
    assert_eq!((c.x, c.y, c.z), (UNIT / 2, UNIT / 2, 0));
}
