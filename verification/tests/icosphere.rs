use planet_lod::IcoSphere;
use planet_lod::UNIT;

fn norm_sq(x: i64, y: i64, z: i64) -> i64 {
    x * x + y * y + z * z
}

#[test]
fn test_icosphere_base_counts() {
    let mut s = IcoSphere::new();
    s.generate(0);
    assert_eq!(s.vertices.len(), 12);
    assert_eq!(s.indices.len(), 60);
    assert_eq!(s.edges.len(), 30);
    assert_eq!(s.subdivisions, 0);
}

#[test]
fn test_icosphere_counts_formula() {
    for n in 0..4u32 {
        let mut s = IcoSphere::new();
        s.generate(n);
        let p = 4u64.pow(n);
        assert_eq!(s.vertices.len() as u64, 10 * p + 2);
        assert_eq!(s.indices.len() as u64, 60 * p);
        assert_eq!(s.edges.len() as u64, 30 * p);
    }
}

#[test]
fn test_icosphere_one_round_dedup() {
    // one round from level n to n+1 must add exactly one midpoint per
    // distinct edge: 42 = 12 + 30 vertices at level 1, not 12 + 60
    let mut s = IcoSphere::new();
    s.generate(1);
    assert_eq!(s.vertices.len(), 42);
    assert_eq!(s.indices.len(), 240);
}

#[test]
fn test_icosphere_vertices_on_unit_sphere() {
    let mut s = IcoSphere::new();
    s.generate(2);
    let uu = UNIT * UNIT;
    let tol = 524288;
    for v in &s.vertices {
        let d = norm_sq(v.x, v.y, v.z);
        assert!(d >= uu - tol && d <= uu + tol);
    }
}

#[test]
fn test_icosphere_indices_in_range() {
    let mut s = IcoSphere::new();
    s.generate(3);
    let n = s.vertices.len() as u32;
    for &i in &s.indices {
        assert!(i < n);
    }
}

#[test]
fn test_icosphere_no_duplicate_vertices() {
    // shared edges of adjacent triangles reuse one midpoint, so no two
    // vertices coincide
    for n in 0..3u32 {
        let mut s = IcoSphere::new();
        s.generate(n);
        for i in 0..s.vertices.len() {
            for j in (i + 1)..s.vertices.len() {
                let a = s.vertices[i];
                let b = s.vertices[j];
                assert!(a.x != b.x || a.y != b.y || a.z != b.z);
            }
        }
    }
}

#[test]
fn test_icosphere_deterministic() {
    let mut a = IcoSphere::new();
    let mut b = IcoSphere::new();
    a.generate(2);
    b.generate(2);
    assert_eq!(a.vertices, b.vertices);
    assert_eq!(a.indices, b.indices);
    assert_eq!(a.edges, b.edges);
}

#[test]
fn test_icosphere_regenerate_clears_state() {
    // generating again on a used instance equals a fresh generation: no
    // prior contents leak into the result
    let mut a = IcoSphere::new();
    a.generate(3);
    a.generate(1);
    let mut b = IcoSphere::new();
    b.generate(1);
    assert_eq!(a.vertices, b.vertices);
    assert_eq!(a.indices, b.indices);
    assert_eq!(a.edges, b.edges);
}
