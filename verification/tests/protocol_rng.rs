use planet_lod::BodyType;
use planet_lod::CelestialBodyGeometry;
use planet_lod::CelestialBodyHandle;
use planet_lod::GeometryError;
use planet_lod::Planet;
use planet_lod::StarGeometry;
use planet_lod::RNG;
use planet_lod::protocol::alloc_transfer_buffers;
use planet_lod::protocol::lod_buffer_sizes;
use planet_lod::protocol::worker_generate;
use planet_lod::protocol::buffers_to_vertex_data;
use planet_lod::CelestialVertex;

#[test]
fn test_buffer_sizes_match_closed_form() {
    let pos_bytes = [
        144u64, 504, 1944, 7704, 30744, 122904, 491544, 1966104, 7864344, 31457304,
    ];
    let idx_bytes = [
        240u64, 960, 3840, 15360, 61440, 245760, 983040, 3932160, 15728640, 62914560,
    ];
    for l in 0..10u32 {
        let s = lod_buffer_sizes(l, BodyType::Planet);
        assert_eq!(s.position_bytes, pos_bytes[l as usize]);
        assert_eq!(s.color_bytes, pos_bytes[l as usize]);
        assert_eq!(s.normal_bytes, pos_bytes[l as usize]);
        assert_eq!(s.index_bytes, idx_bytes[l as usize]);
        let st = lod_buffer_sizes(l, BodyType::Star);
        assert_eq!(st.position_bytes, pos_bytes[l as usize]);
        assert_eq!(st.normal_bytes, 0);
        assert_eq!(st.index_bytes, idx_bytes[l as usize] / 2);
    }
}

#[test]
fn test_handshake_round_trip() {
    let mut handle = CelestialBodyHandle::new(
        CelestialBodyGeometry::Star(StarGeometry::new()),
        7,
    );
    assert_eq!(handle.get_type(), 1);
    assert!(!handle.is_ready());
    assert!(handle.request_lod(1).is_ok());
    // only one outstanding request per body
    assert_eq!(handle.request_lod(1), Err(GeometryError::RequestPending));
    // the worker signals readiness; the caller answers with the request
    let level = handle.on_worker_ready().unwrap();
    assert_eq!(level, 1);
    // the worker generates into pre-sized buffers on its own body instance
    let mut worker_body = CelestialBodyGeometry::Star(StarGeometry::new());
    let buffers = alloc_transfer_buffers(level, BodyType::Star);
    let (filled, res) = worker_generate(&mut worker_body, level, buffers);
    assert!(res.is_ok());
    assert_eq!(filled.position.len(), 3 * 42);
    assert_eq!(filled.normal.len(), 0);
    assert_eq!(filled.index.len(), 240);
    // completion is stored and handed out exactly once by polling
    assert!(handle.on_worker_completed(filled).is_ok());
    assert!(handle.is_ready());
    let got = handle.poll_ready().unwrap();
    assert_eq!(got.position.len(), 3 * 42);
    assert_eq!(got.color[0], 45875);
    // shaping the result keeps the buffers verbatim
    match buffers_to_vertex_data(BodyType::Star, got) {
        CelestialVertex::Star(e) => {
            assert_eq!(e.position.len(), 3 * 42);
            assert_eq!(e.color[0], 45875);
            assert_eq!(e.indice.len(), 240);
        }
        CelestialVertex::Planet(_) => panic!("star data expected"),
    }
    assert!(handle.poll_ready().is_none());
    // with the result polled, a new request may be enqueued
    assert!(handle.request_lod(0).is_ok());
}

#[test]
fn test_worker_rejects_wrong_buffer_sizes() {
    let mut body = CelestialBodyGeometry::Star(StarGeometry::new());
    // buffers sized for the wrong level must be rejected before any write
    let wrong = alloc_transfer_buffers(2, BodyType::Star);
    let (back, res) = worker_generate(&mut body, 1, wrong);
    assert_eq!(res, Err(GeometryError::BufferSizeMismatch));
    assert_eq!(back.position.len(), 3 * 162);
    assert!(back.position.iter().all(|&v| v == 0));
    assert!(back.index.iter().all(|&v| v == 0));
}

#[test]
fn test_worker_rejects_level_out_of_range() {
    let mut body = CelestialBodyGeometry::Star(StarGeometry::new());
    let buffers = alloc_transfer_buffers(1, BodyType::Star);
    let (back, res) = worker_generate(&mut body, 8, buffers);
    assert_eq!(res, Err(GeometryError::LevelOutOfRange));
    assert!(back.position.iter().all(|&v| v == 0));
}

#[test]
fn test_worker_planet_fills_buffers() {
    let mut body = CelestialBodyGeometry::Planet(Planet::new());
    assert_eq!(body.get_type(), 0);
    let buffers = alloc_transfer_buffers(0, BodyType::Planet);
    let (filled, res) = worker_generate(&mut body, 0, buffers);
    assert!(res.is_ok());
    assert_eq!(filled.position.len(), 36);
    assert_eq!(filled.normal.len(), 36);
    assert_eq!(filled.index.len(), 60);
    // something was actually written: positions of a sphere are not all zero
    assert!(filled.position.iter().any(|&v| v != 0));
    assert!(filled.normal.iter().any(|&v| v != 0));
}

#[test]
fn test_rng_ranges_and_determinism() {
    let mut a = RNG::new(42);
    let mut b = RNG::new(42);
    for _ in 0..100 {
        let x = a.u32(10, 20);
        assert!(x >= 10 && x < 20);
        assert_eq!(x, b.u32(10, 20));
        let y = a.u64(1000, 1_000_000);
        assert!(y >= 1000 && y < 1_000_000);
        assert_eq!(y, b.u64(1000, 1_000_000));
        let n = a.norm_bits();
        assert!(n < (1u64 << 53));
        assert_eq!(n, b.norm_bits());
    }
    // a different seed yields a different sequence somewhere
    let mut c = RNG::new(43);
    let mut differs = false;
    let mut a2 = RNG::new(42);
    for _ in 0..10 {
        if a2.u64(0, u64::MAX - 1) != c.u64(0, u64::MAX - 1) {
            differs = true;
        }
    }
    assert!(differs);
}
