//! The offload handshake: run level-of-detail generation on a background
//! worker and hand the finished buffers back through pre-sized transfer
//! buffers.
//!
//! The caller allocates the buffers from the closed-form byte sizes of the
//! requested level, spawns or reuses a worker, and waits for its readiness
//! acknowledgment; on readiness it sends the request with the buffers; the
//! worker generates the level, writes the results into the buffers after a
//! defensive size check, and sends them back.  One body has at most one
//! request outstanding at a time.  The caller observes completion by
//! polling, which returns and clears the pending result once.

use vstd::prelude::*;
use crate::ico::pow4;
use crate::ico::vertex_count_spec;
use crate::ico::index_count_spec;
use crate::ico::lemma_pow4_monotone;
use crate::lod::GeometryError;
use crate::lod::Planet;
use crate::lod::PlanetVertex;
use crate::lod::StarGeometry;
use crate::lod::StarVertex;
use crate::lod::entry_wf;
use crate::lod::star_entry_wf;

verus! {

/// The kind of a celestial body; stars carry no normal channel.
#[derive(Clone, Copy, Debug, PartialEq, Eq, Structural)]
pub enum BodyType {
    Planet,
    Star,
}

/// The geometry of one celestial body.
pub enum CelestialBodyGeometry {
    Planet(Planet),
    Star(StarGeometry),
}

impl CelestialBodyGeometry {
    /// The wire discriminator of the body kind: `0` for a planet, `1` for a
    /// star.
    pub fn get_type(&self) -> (r: u8)
        ensures
            r == 0 <==> self is Planet,
            r == 0 || r == 1,
    {
        match self {
            CelestialBodyGeometry::Planet(_) => 0,
            CelestialBodyGeometry::Star(_) => 1,
        }
    }

    /// The kind of the body.
    pub fn body_type(&self) -> (r: BodyType)
        ensures
            r == BodyType::Planet <==> self is Planet,
    {
        match self {
            CelestialBodyGeometry::Planet(_) => BodyType::Planet,
            CelestialBodyGeometry::Star(_) => BodyType::Star,
        }
    }

    /// Structural invariant of the underlying body.
    pub open spec fn wf(self) -> bool {
        match self {
            CelestialBodyGeometry::Planet(p) => p.wf(),
            CelestialBodyGeometry::Star(s) => s.wf(),
        }
    }

    /// The configured maximum level of the body.
    pub open spec fn spec_max_subdivision(self) -> u32 {
        match self {
            CelestialBodyGeometry::Planet(p) => p.spec_max_subdivision(),
            CelestialBodyGeometry::Star(s) => s.spec_max_subdivision(),
        }
    }
}

/// Completed vertex data of one level of either body kind.
pub enum CelestialVertex {
    Planet(PlanetVertex),
    Star(StarVertex),
}

impl CelestialVertex {
    /// The completed data is well-formed for its level and kind.
    pub open spec fn wf_for(self, l: nat) -> bool {
        match self {
            CelestialVertex::Planet(e) => entry_wf(e, l),
            CelestialVertex::Star(e) => star_entry_wf(e, l),
        }
    }
}

/// Transfer buffer byte sizes for one level and body kind.
#[derive(Clone, Copy, Debug, PartialEq, Eq, Structural)]
pub struct TransferSizes {
    pub position_bytes: u64,
    pub color_bytes: u64,
    pub normal_bytes: u64,
    pub index_bytes: u64,
}

/// `4^n`, executable.
pub fn pow4_u64(n: u32) -> (r: u64)
    requires
        n <= 15,
    ensures
        r == pow4(n as nat),
        r <= 0x4000_0000,
{
    let mut r: u64 = 1;
    let mut i: u32 = 0;
    while i < n
        invariant
            i <= n <= 15,
            r == pow4(i as nat),
            r <= 0x4000_0000,
        decreases n - i,
    {
        proof {
            lemma_pow4_monotone((i + 1) as nat, 15);
            reveal_with_fuel(pow4, 16);
            assert(pow4(15) == 0x4000_0000);
        }
        r = r * 4;
        i = i + 1;
    }
    r
}

/// The exact vertex count of an icosphere level, executable.
pub fn vertex_count(level: u32) -> (r: u64)
    requires
        level <= 15,
    ensures
        r == vertex_count_spec(level as nat),
{
    10 * pow4_u64(level) + 2
}

/// The exact index count of an icosphere level, executable.
pub fn index_count(level: u32) -> (r: u64)
    requires
        level <= 15,
    ensures
        r == index_count_spec(level as nat),
{
    60 * pow4_u64(level)
}

/// The transfer buffer byte sizes of one level: three four-byte channels
/// per vertex for positions and colors, the same for normals on planets
/// only, and four bytes per index entry.  Stars omit the normal buffer and
/// use half the index multiplier (their index channel ships two-byte
/// entries on the wire), so a caller can pre-size every buffer without
/// asking the worker.
pub fn lod_buffer_sizes(level: u32, body: BodyType) -> (r: TransferSizes)
    requires
        level <= 15,
    ensures
        r.position_bytes == 12 * vertex_count_spec(level as nat),
        r.color_bytes == 12 * vertex_count_spec(level as nat),
        body == BodyType::Planet ==> r.normal_bytes == 12 * vertex_count_spec(level as nat),
        body == BodyType::Star ==> r.normal_bytes == 0,
        body == BodyType::Planet ==> r.index_bytes == 4 * index_count_spec(level as nat),
        body == BodyType::Star ==> r.index_bytes == 2 * index_count_spec(level as nat),
    {
    let vc = vertex_count(level);
    let ic = index_count(level);
    proof {
        lemma_pow4_monotone(level as nat, 15);
        reveal_with_fuel(pow4, 16);
        assert(pow4(15) == 0x4000_0000);
    }
    let normal_bytes: u64 = match body {
        BodyType::Planet => 12 * vc,
        BodyType::Star => 0,
    };
    let index_bytes: u64 = match body {
        BodyType::Planet => 4 * ic,
        BodyType::Star => 2 * ic,
    };
    TransferSizes { position_bytes: 12 * vc, color_bytes: 12 * vc, normal_bytes, index_bytes }
}

/// Pre-sized transfer buffers, exclusively owned by the request in flight.
pub struct TransferBuffers {
    pub position: Vec<i64>,
    pub color: Vec<i64>,
    pub normal: Vec<i64>,
    pub index: Vec<u32>,
}

/// The buffers have exactly the element counts of the level and kind.
pub open spec fn buffers_sized(b: TransferBuffers, level: nat, body: BodyType) -> bool {
    &&& b.position@.len() == 3 * vertex_count_spec(level)
    &&& b.color@.len() == 3 * vertex_count_spec(level)
    &&& b.normal@.len() == (if body == BodyType::Planet {
        3 * vertex_count_spec(level)
    } else {
        0nat
    })
    &&& b.index@.len() == index_count_spec(level)
}

/// Allocate zero-filled transfer buffers for one level and kind.
pub fn alloc_transfer_buffers(level: u32, body: BodyType) -> (r: TransferBuffers)
    requires
        level <= 8,
    ensures
        buffers_sized(r, level as nat, body),
{
    proof {
        lemma_pow4_monotone(level as nat, 8);
        reveal_with_fuel(pow4, 9);
        assert(pow4(8) == 65536);
    }
    let vc = vertex_count(level) as usize;
    let ic = index_count(level) as usize;
    let position = zero_vec_i64(3 * vc);
    let color = zero_vec_i64(3 * vc);
    let normal = match body {
        BodyType::Planet => zero_vec_i64(3 * vc),
        BodyType::Star => Vec::new(),
    };
    let index = zero_vec_u32(ic);
    TransferBuffers { position, color, normal, index }
}

fn zero_vec_i64(n: usize) -> (r: Vec<i64>)
    ensures
        r@.len() == n,
{
    let mut r: Vec<i64> = Vec::new();
    let mut i: usize = 0;
    while i < n
        invariant
            i <= n,
            r@.len() == i,
        decreases n - i,
    {
        r.push(0);
        i += 1;
    }
    r
}

fn zero_vec_u32(n: usize) -> (r: Vec<u32>)
    ensures
        r@.len() == n,
{
    let mut r: Vec<u32> = Vec::new();
    let mut i: usize = 0;
    while i < n
        invariant
            i <= n,
            r@.len() == i,
        decreases n - i,
    {
        r.push(0);
        i += 1;
    }
    r
}

/// A message from the worker to the caller.
pub enum WorkerMsg {
    /// The worker is up and can receive a request.
    Ready,
    /// The generation finished; the same buffers come back filled.
    Completed(TransferBuffers),
}

/// A message from the caller to the worker.
pub enum CallerMsg {
    /// Generate this level into these buffers.
    Request { level: u32, buffers: TransferBuffers },
}

/// Copy a flattened value array into a fixed-size transfer buffer.
fn copy_into_i64(dst: &mut Vec<i64>, src: &Vec<i64>)
    requires
        old(dst)@.len() == src@.len(),
    ensures
        final(dst)@ == src@,
{
    let n = src.len();
    let mut i: usize = 0;
    while i < n
        invariant
            i <= n,
            n == src@.len(),
            dst@.len() == n,
            forall|k: int| 0 <= k < i ==> #[trigger] dst@[k] == src@[k],
        decreases n - i,
    {
        dst[i] = src[i];
        i += 1;
    }
    proof {
        assert(dst@ =~= src@);
    }
}

/// Copy an index array into a fixed-size transfer buffer.
fn copy_into_u32(dst: &mut Vec<u32>, src: &Vec<u32>)
    requires
        old(dst)@.len() == src@.len(),
    ensures
        final(dst)@ == src@,
{
    let n = src.len();
    let mut i: usize = 0;
    while i < n
        invariant
            i <= n,
            n == src@.len(),
            dst@.len() == n,
            forall|k: int| 0 <= k < i ==> #[trigger] dst@[k] == src@[k],
        decreases n - i,
    {
        dst[i] = src[i];
        i += 1;
    }
    proof {
        assert(dst@ =~= src@);
    }
}

/// The Ok outcome of one worker request on a planet body: the level is now
/// cached, the returned buffers hold exactly that cache entry's arrays,
/// every other cache level is unchanged, and maximum-detail data that
/// existed before survives unchanged.
pub open spec fn planet_filled(pre: Planet, post: Planet, level: int, b: TransferBuffers) -> bool {
    &&& post.level_cached(level)
    &&& b.position@ == post.entry_at(level).position@
    &&& b.color@ == post.entry_at(level).color@
    &&& b.normal@ == post.entry_at(level).normal@
    &&& b.index@ == post.entry_at(level).indice@
    &&& forall|l: int|
        0 <= l < pre.cache().len() && l != level ==> post.cache()[l] == #[trigger] pre.cache()[l]
    &&& (pre.max_built() ==> post.max_mesh_data() == pre.max_mesh_data())
}

/// The Ok outcome of one worker request on a star body, likewise.
pub open spec fn star_filled(
    pre: StarGeometry,
    post: StarGeometry,
    level: int,
    b: TransferBuffers,
) -> bool {
    &&& post.level_cached(level)
    &&& b.position@ == post.entry_at(level).position@
    &&& b.color@ == post.entry_at(level).color@
    &&& b.index@ == post.entry_at(level).indice@
    &&& forall|l: int|
        0 <= l < pre.lod_content@.len() && l != level ==> post.lod_content@[l]
            == #[trigger] pre.lod_content@[l]
}

/// The worker's side of one request: generate the level on the body and
/// write the finished arrays into the transfer buffers.
///
/// The buffers are checked against the level's exact sizes before anything
/// is written: on any error (level out of range, or a size mismatch) the
/// buffers come back untouched and the body's cache state for other levels
/// is unchanged.
pub fn worker_generate(
    body: &mut CelestialBodyGeometry,
    level: u32,
    buffers: TransferBuffers,
) -> (r: (TransferBuffers, Result<(), GeometryError>))
    requires
        old(body).wf(),
    ensures
        final(body).wf(),
        r.1 is Err ==> r.0 == buffers,
        level > old(body).spec_max_subdivision() ==> r.1 == Result::<
            (),
            GeometryError,
        >::Err(GeometryError::LevelOutOfRange) && *final(body) == *old(body),
        level <= old(body).spec_max_subdivision() && !buffers_sized(
            buffers,
            level as nat,
            if (*old(body)) is Planet {
                BodyType::Planet
            } else {
                BodyType::Star
            },
        ) ==> r.1 == Result::<(), GeometryError>::Err(GeometryError::BufferSizeMismatch),
        r.1 is Ok ==> buffers_sized(
            r.0,
            level as nat,
            if (*old(body)) is Planet {
                BodyType::Planet
            } else {
                BodyType::Star
            },
        ),
        r.1 is Ok <==> (level <= old(body).spec_max_subdivision() && buffers_sized(
            buffers,
            level as nat,
            if (*old(body)) is Planet {
                BodyType::Planet
            } else {
                BodyType::Star
            },
        )),
        r.1 is Ok && (*old(body)) is Planet ==> ((*old(body)) matches
            CelestialBodyGeometry::Planet(p0) && (*final(body)) matches
            CelestialBodyGeometry::Planet(p1) && planet_filled(p0, p1, level as int, r.0)),
        r.1 is Ok && (*old(body)) is Star ==> ((*old(body)) matches CelestialBodyGeometry::Star(s0)
            && (*final(body)) matches CelestialBodyGeometry::Star(s1) && star_filled(
            s0,
            s1,
            level as int,
            r.0,
        )),
{
    match body {
        CelestialBodyGeometry::Planet(p) => {
            if level > p.max_level() {
                return (buffers, Err(GeometryError::LevelOutOfRange));
            }
            proof {
                lemma_pow4_monotone(level as nat, 8);
                reveal_with_fuel(pow4, 9);
                assert(pow4(8) == 65536);
            }
            let vc = vertex_count(level) as usize;
            let ic = index_count(level) as usize;
            if buffers.position.len() != 3 * vc || buffers.color.len() != 3 * vc
                || buffers.normal.len() != 3 * vc || buffers.index.len() != ic {
                return (buffers, Err(GeometryError::BufferSizeMismatch));
            }
            let mut buffers = buffers;
            let res = p.generate(level);
            proof {
                assert(res is Ok);
            }
            let idx = level as usize;
            copy_into_i64(&mut buffers.position, p.get_positions(idx));
            copy_into_i64(&mut buffers.color, p.get_colors(idx));
            copy_into_i64(&mut buffers.normal, p.get_normals(idx));
            copy_into_u32(&mut buffers.index, p.get_indices(idx));
            (buffers, Ok(()))
        },
        CelestialBodyGeometry::Star(s) => {
            if level > s.max_subdivision {
                return (buffers, Err(GeometryError::LevelOutOfRange));
            }
            proof {
                lemma_pow4_monotone(level as nat, 8);
                reveal_with_fuel(pow4, 9);
                assert(pow4(8) == 65536);
            }
            let vc = vertex_count(level) as usize;
            let ic = index_count(level) as usize;
            if buffers.position.len() != 3 * vc || buffers.color.len() != 3 * vc
                || buffers.normal.len() != 0 || buffers.index.len() != ic {
                return (buffers, Err(GeometryError::BufferSizeMismatch));
            }
            let mut buffers = buffers;
            let res = s.generate(level);
            proof {
                assert(res is Ok);
            }
            let idx = level as usize;
            let entry = match &s.lod_content[idx] {
                Some(e) => e,
                None => vstd::pervasive::unreached(),
            };
            proof {
                assert(star_entry_wf(*entry, level as nat));
            }
            copy_into_i64(&mut buffers.position, &entry.position);
            copy_into_i64(&mut buffers.color, &entry.color);
            copy_into_u32(&mut buffers.index, &entry.indice);
            (buffers, Ok(()))
        },
    }
}

/// Shape the polled transfer buffers into the typed per-kind vertex data a
/// renderer uploads: planets keep their normal channel, stars drop theirs.
pub fn buffers_to_vertex_data(kind: BodyType, buffers: TransferBuffers) -> (r: CelestialVertex)
    ensures
        kind == BodyType::Planet ==> (r matches CelestialVertex::Planet(e) && e.position
            == buffers.position && e.color == buffers.color && e.normal == buffers.normal
            && e.indice == buffers.index),
        kind == BodyType::Star ==> (r matches CelestialVertex::Star(e) && e.position
            == buffers.position && e.color == buffers.color && e.indice == buffers.index),
{
    match kind {
        BodyType::Planet => CelestialVertex::Planet(
            PlanetVertex {
                position: buffers.position,
                color: buffers.color,
                normal: buffers.normal,
                indice: buffers.index,
            },
        ),
        BodyType::Star => CelestialVertex::Star(
            StarVertex {
                position: buffers.position,
                color: buffers.color,
                indice: buffers.index,
            },
        ),
    }
}

/// The caller-side protocol state of one body.
#[derive(Clone, Copy, Debug, PartialEq, Eq, Structural)]
pub enum ProtocolState {
    /// No request outstanding.
    Idle,
    /// A worker was spawned; waiting for its readiness message.
    AwaitingReady,
    /// The request was sent; waiting for the completed buffers.
    Generating,
}

/// The caller's handle on one celestial body: its geometry, the protocol
/// state of the at-most-one outstanding request, and the pending completed
/// buffers awaiting a poll.
pub struct CelestialBodyHandle {
    pub body: CelestialBodyGeometry,
    state: ProtocolState,
    requested_level: u32,
    pending: Option<TransferBuffers>,
    pub id: u32,
}

impl CelestialBodyHandle {
    /// The protocol state, as the contracts see it.
    pub closed spec fn spec_state(self) -> ProtocolState {
        self.state
    }

    /// The level of the outstanding request, as the contracts see it.
    pub closed spec fn spec_requested_level(self) -> u32 {
        self.requested_level
    }

    /// The pending completed buffers, as the contracts see them.
    pub closed spec fn spec_pending(self) -> Option<TransferBuffers> {
        self.pending
    }

    /// The body, as the contracts see it.
    pub closed spec fn spec_body(self) -> CelestialBodyGeometry {
        self.body
    }

    /// The handle id, as the contracts see it.
    pub closed spec fn spec_id(self) -> u32 {
        self.id
    }

    /// Structural invariant: the body is well-formed and an outstanding
    /// request targets a level within range.
    pub closed spec fn wf(self) -> bool {
        &&& self.body.wf()
        &&& (self.state != ProtocolState::Idle ==> self.requested_level
            <= self.body.spec_max_subdivision() && self.pending is None)
    }

    /// Wrap a body, with no request outstanding.
    pub fn new(body: CelestialBodyGeometry, id: u32) -> (r: CelestialBodyHandle)
        requires
            body.wf(),
        ensures
            r.wf(),
            r.spec_state() == ProtocolState::Idle,
            r.spec_pending() is None,
            r.spec_id() == id,
            r.spec_body() == body,
    {
        CelestialBodyHandle { body, state: ProtocolState::Idle, requested_level: 0, pending: None, id }
    }

    /// The wire discriminator of the body kind.
    pub fn get_type(&self) -> (r: u8)
        ensures
            r == 0 <==> self.spec_body() is Planet,
            r == 0 || r == 1,
    {
        self.body.get_type()
    }

    /// Enqueue a generation request for one level.  At most one request per
    /// body is outstanding: a second request is rejected until the first
    /// one's result has been polled.
    pub fn request_lod(&mut self, level: u32) -> (r: Result<(), GeometryError>)
        requires
            old(self).wf(),
        ensures
            final(self).wf(),
            final(self).spec_body() == old(self).spec_body(),
            final(self).spec_id() == old(self).spec_id(),
            r is Err ==> *final(self) == *old(self),
            old(self).spec_state() != ProtocolState::Idle || old(self).spec_pending() is Some
                ==> r == Result::<(), GeometryError>::Err(GeometryError::RequestPending),
            old(self).spec_state() == ProtocolState::Idle && old(self).spec_pending() is None
                && level > old(self).spec_body().spec_max_subdivision() ==> r == Result::<
                (),
                GeometryError,
            >::Err(GeometryError::LevelOutOfRange),
            r is Ok <==> (old(self).spec_state() == ProtocolState::Idle
                && old(self).spec_pending() is None
                && level <= old(self).spec_body().spec_max_subdivision()),
            r is Ok ==> final(self).spec_state() == ProtocolState::AwaitingReady
                && final(self).spec_requested_level() == level
                && final(self).spec_pending() is None,
    {
        if !matches!(self.state, ProtocolState::Idle) {
            return Err(GeometryError::RequestPending);
        }
        let has_pending = match &self.pending {
            Some(_) => true,
            None => false,
        };
        if has_pending {
            return Err(GeometryError::RequestPending);
        }
        let max = match &self.body {
            CelestialBodyGeometry::Planet(p) => p.max_level(),
            CelestialBodyGeometry::Star(s) => s.max_subdivision,
        };
        if level > max {
            return Err(GeometryError::LevelOutOfRange);
        }
        self.state = ProtocolState::AwaitingReady;
        self.requested_level = level;
        Ok(())
    }

    /// Handle the worker's readiness message: if this body is waiting for
    /// it, move to generating and say which level to send.
    pub fn on_worker_ready(&mut self) -> (r: Option<u32>)
        requires
            old(self).wf(),
        ensures
            final(self).wf(),
            final(self).spec_body() == old(self).spec_body(),
            final(self).spec_id() == old(self).spec_id(),
            old(self).spec_state() == ProtocolState::AwaitingReady ==> r == Some(
                old(self).spec_requested_level(),
            ) && final(self).spec_state() == ProtocolState::Generating
                && final(self).spec_requested_level() == old(self).spec_requested_level(),
            old(self).spec_state() != ProtocolState::AwaitingReady ==> r is None && *final(self)
                == *old(self),
    {
        if matches!(self.state, ProtocolState::AwaitingReady) {
            self.state = ProtocolState::Generating;
            Some(self.requested_level)
        } else {
            None
        }
    }

    /// Handle the worker's completion message: store the returned buffers
    /// for the next poll and return to idle.  A completion that was never
    /// requested leaves the handle unchanged.
    pub fn on_worker_completed(&mut self, buffers: TransferBuffers) -> (r: Result<
        (),
        GeometryError,
    >)
        requires
            old(self).wf(),
        ensures
            final(self).wf(),
            final(self).spec_body() == old(self).spec_body(),
            final(self).spec_id() == old(self).spec_id(),
            r is Ok <==> old(self).spec_state() == ProtocolState::Generating,
            r is Ok ==> final(self).spec_state() == ProtocolState::Idle
                && final(self).spec_pending() == Some(buffers),
            r is Err ==> *final(self) == *old(self) && r == Result::<
                (),
                GeometryError,
            >::Err(GeometryError::RequestPending),
    {
        if matches!(self.state, ProtocolState::Generating) {
            self.state = ProtocolState::Idle;
            self.pending = Some(buffers);
            Ok(())
        } else {
            Err(GeometryError::RequestPending)
        }
    }

    /// Non-blocking poll: return and clear the pending completed buffers,
    /// once.
    pub fn poll_ready(&mut self) -> (r: Option<TransferBuffers>)
        requires
            old(self).wf(),
        ensures
            final(self).wf(),
            final(self).spec_body() == old(self).spec_body(),
            final(self).spec_id() == old(self).spec_id(),
            r == old(self).spec_pending(),
            final(self).spec_pending() is None,
            final(self).spec_state() == old(self).spec_state(),
            final(self).spec_requested_level() == old(self).spec_requested_level(),
    {
        self.pending.take()
    }

    /// Whether a completed result is waiting to be polled.
    pub fn is_ready(&self) -> (r: bool)
        ensures
            r == (self.spec_pending() is Some),
    {
        match &self.pending {
            Some(_) => true,
            None => false,
        }
    }
}

} // verus!
