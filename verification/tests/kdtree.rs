use planet_lod::KDTree3D;
use planet_lod::Vec3Fx;
use planet_lod::RNG;

fn fx(x: f32, y: f32, z: f32) -> Vec3Fx {
    Vec3Fx {
        x: (x * 65536.0) as i64,
        y: (y * 65536.0) as i64,
        z: (z * 65536.0) as i64,
    }
}

fn dist_sq(a: Vec3Fx, b: Vec3Fx) -> i64 {
    (a.x - b.x) * (a.x - b.x) + (a.y - b.y) * (a.y - b.y) + (a.z - b.z) * (a.z - b.z)
}

#[test]
fn test_kdtree_basic() {
    let points = vec![fx(1.0, 2.0, 3.0), fx(4.0, 5.0, 6.0), fx(7.0, 8.0, 9.0)];

    let tree = KDTree3D::new(&points);
    let nearest = tree.nearest_neighbor(fx(1.1, 2.1, 3.1));
    assert_eq!(nearest, 0);
}

#[test]
fn test_kdtree_empty() {
    let points = vec![];
    let tree = KDTree3D::new(&points);
    let nearest = tree.nearest_neighbor(fx(0.0, 0.0, 0.0));
    assert_eq!(nearest, 0);
}

#[test]
fn test_kdtree_single_point() {
    let points = vec![fx(0.5, -0.25, 0.75)];
    let tree = KDTree3D::new(&points);
    assert_eq!(tree.nearest_neighbor(fx(-3.0, 2.0, 1.0)), 0);
}

#[test]
fn test_kdtree_matches_brute_force() {
    let mut rng = RNG::new(0x1234_5678_9abc_def0);
    for size in [2usize, 7, 33, 150] {
        let mut points: Vec<Vec3Fx> = Vec::new();
        for _ in 0..size {
            let x = rng.u64(0, 2_000_000) as i64 - 1_000_000;
            let y = rng.u64(0, 2_000_000) as i64 - 1_000_000;
            let z = rng.u64(0, 2_000_000) as i64 - 1_000_000;
            points.push(Vec3Fx { x, y, z });
        }
        let tree = KDTree3D::new(&points);
        for _ in 0..40 {
            let q = Vec3Fx {
                x: rng.u64(0, 2_000_000) as i64 - 1_000_000,
                y: rng.u64(0, 2_000_000) as i64 - 1_000_000,
                z: rng.u64(0, 2_000_000) as i64 - 1_000_000,
            };
            let got = tree.nearest_neighbor(q);
            let mut best = 0usize;
            for j in 0..points.len() {
                if dist_sq(points[j], q) < dist_sq(points[best], q) {
                    best = j;
                }
            }
            assert_eq!(dist_sq(points[got], q), dist_sq(points[best], q));
        }
    }
}
