use planet_lod::Planet;
use planet_lod::StarGeometry;
use planet_lod::GeometryError;
use planet_lod::UNIT;

#[test]
fn test_lod_generate_counts() {
    let mut p = Planet::new();
    assert!(p.generate(0).is_ok());
    assert_eq!(p.get_vertex_count(0), 12);
    assert_eq!(p.get_index_count(0), 60);
    assert_eq!(p.get_positions(0).len(), 36);
    assert_eq!(p.get_colors(0).len(), 36);
    assert_eq!(p.get_normals(0).len(), 36);
}

#[test]
fn test_lod_idempotent_generation() {
    let mut p = Planet::new();
    assert!(p.generate(1).is_ok());
    let pos1 = p.get_positions(1).clone();
    let col1 = p.get_colors(1).clone();
    let nor1 = p.get_normals(1).clone();
    let ix1 = p.get_indices(1).clone();
    // a second request for the same level is a cache hit: the buffers come
    // back identical
    assert!(p.generate(1).is_ok());
    assert_eq!(&pos1, p.get_positions(1));
    assert_eq!(&col1, p.get_colors(1));
    assert_eq!(&nor1, p.get_normals(1));
    assert_eq!(&ix1, p.get_indices(1));
}

#[test]
fn test_lod_end_to_end_planet() {
    let mut p = Planet::new();
    // first request on a fresh body: 12 vertices, 20 triangles
    assert!(p.generate(0).is_ok());
    assert_eq!(p.get_vertex_count(0), 12);
    assert_eq!(p.get_index_count(0), 60);
    let sea = 65405i64;
    let pos = p.get_positions(0).clone();
    let col = p.get_colors(0).clone();
    for i in 0..12usize {
        // every resampled vertex sits at or above sea level (within the
        // fixed-point tolerance of the radius scaling)
        let x = pos[3 * i] as i128;
        let y = pos[3 * i + 1] as i128;
        let z = pos[3 * i + 2] as i128;
        let d2 = x * x + y * y + z * z;
        let lo = (sea as i128 - 1024) * (sea as i128 - 1024);
        assert!(d2 >= lo);
        // colors always come from a palette, so all channels are in range
        for c in 0..3usize {
            let ch = col[3 * i + c];
            assert!(ch >= 0 && ch <= UNIT);
        }
    }
    // a later request reuses the cached maximum-detail data and yields the
    // closed-form count for level 2
    assert!(p.is_max_built());
    assert!(p.generate(2).is_ok());
    assert_eq!(p.get_vertex_count(2), 162);
    assert_eq!(p.get_index_count(2), 60 * 16);
}

#[test]
fn test_lod_level_out_of_range() {
    let mut p = Planet::new();
    assert_eq!(p.generate(6), Err(GeometryError::LevelOutOfRange));
    // the rejected request built nothing
    assert!(!p.is_max_built());
    // the rejected request left no cache entry behind
    for l in 0..6usize {
        assert!(p.lod_levels[l].is_none());
    }
    // and a valid request still works afterwards
    assert!(p.generate(0).is_ok());
}

#[test]
fn test_star_generate_flat_color() {
    let mut s = StarGeometry::new();
    assert!(s.generate(1).is_ok());
    let entry = s.lod_content[1].as_ref().unwrap();
    assert_eq!(entry.position.len(), 3 * 42);
    assert_eq!(entry.color.len(), 3 * 42);
    assert_eq!(entry.indice.len(), 240);
    for i in 0..42usize {
        assert_eq!(entry.color[3 * i], 45875);
        assert_eq!(entry.color[3 * i + 1], 19661);
        assert_eq!(entry.color[3 * i + 2], 19661);
    }
    assert_eq!(s.get_indices(1).len(), 240);
}

#[test]
fn test_star_level_out_of_range() {
    let mut s = StarGeometry::new();
    assert_eq!(s.generate(5), Err(GeometryError::LevelOutOfRange));
    for l in 0..5usize {
        assert!(s.lod_content[l].is_none());
    }
}

#[test]
fn test_normals_unit_length() {
    let mut p = Planet::new();
    assert!(p.generate(0).is_ok());
    let nor = p.get_normals(0).clone();
    let uu = (UNIT as i128) * (UNIT as i128);
    let tol = 524288i128;
    for i in 0..12usize {
        let x = nor[3 * i] as i128;
        let y = nor[3 * i + 1] as i128;
        let z = nor[3 * i + 2] as i128;
        let d2 = x * x + y * y + z * z;
        assert!(d2 >= uu - tol && d2 <= uu + tol);
    }
}

#[test]
fn test_lod_max_level_direct_reuse() {
    let mut p = Planet::new();
    let max = 5usize;
    assert!(p.generate(5).is_ok());
    assert_eq!(p.get_vertex_count(max), 10 * 4usize.pow(5) + 2);
    assert_eq!(p.get_index_count(max), 60 * 4usize.pow(5));
    // re-requesting the maximum level is served from the cache unchanged
    let pos = p.get_positions(max).clone();
    assert!(p.generate(5).is_ok());
    assert_eq!(&pos, p.get_positions(max));
}
