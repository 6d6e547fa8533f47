//! Which entities does a light see?
//!
//! A point light looks out through the six faces of a cube map, a
//! directional light along one axis through an orthographic box. For each
//! view this library keeps a frustum of six planes and the list of the
//! entities whose bounding volumes may reach into it. World positions are
//! points of an integer lattice, so every test is exact; the lists are the
//! renderer's own `VisibleEntities`.

pub mod candidates;
pub mod cubemap;
pub mod entities;
pub mod face;
pub mod frustum;
pub mod geometry;
pub mod projection;
pub mod update;

pub use candidates::{Candidate, Candidates};
pub use cubemap::CubemapFrusta;
pub use entities::CubemapVisibleEntities;
pub use face::CubeFace;
pub use frustum::Frustum;
pub use geometry::{Aabb, BoundingVolume, IVec3, Plane, Sphere};
pub use projection::{OrthographicBox, PerspectiveProjection};
pub use update::{DirectionalLight, PointLight};
