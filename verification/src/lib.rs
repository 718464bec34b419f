//! Procedural generation of the visual surface of spherical celestial bodies
//! at multiple levels of detail.
//!
//! The pipeline subdivides an icosahedron into a sphere mesh ([`ico`]),
//! synthesizes terrain (displacement and color) for the maximum-resolution
//! mesh from layered Perlin noise ([`noise`], [`terrain`]), indexes those
//! vertices in a k-d tree ([`kdtree`]), and resamples coarser meshes against
//! them by nearest-neighbor lookup ([`lod`]).  A message-based handshake
//! ([`protocol`]) lets a caller run the generation on a background worker
//! and receive the finished buffers through pre-sized transfer buffers.
//!
//! All geometry is carried in fixed-point integer arithmetic (see [`fixed`]):
//! one unit of length is [`fixed::UNIT`] raw ticks.

pub mod fixed;
pub mod ico;
pub mod kdtree;
pub mod lod;
pub mod noise;
pub mod protocol;
pub mod rng;
pub mod terrain;

pub use fixed::Vec3Fx;
pub use fixed::UNIT;
pub use ico::IcoSphere;
pub use kdtree::KDTree3D;
pub use lod::GeometryError;
pub use lod::Planet;
pub use lod::PlanetVertex;
pub use lod::StarGeometry;
pub use lod::StarVertex;
pub use noise::NoiseField;
pub use protocol::BodyType;
pub use protocol::CelestialBodyGeometry;
pub use protocol::CelestialBodyHandle;
pub use protocol::CelestialVertex;
pub use protocol::TransferBuffers;
pub use rng::RNG;
pub use terrain::ColorPoint;
