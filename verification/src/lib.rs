//! The bookkeeping core of a 3D rendering engine: which entity goes into which
//! instance buffer, at which slot, what an update may write in place, which
//! draw calls cover a frame, and how each record is laid out in bytes.
//!
//! Every single-precision number is carried as its IEEE-754 bit pattern in a
//! `u32`. The library moves, compares and lays out such numbers; it never
//! computes with them. Whoever calls it does the arithmetic, talks to the GPU
//! and to the window system, and says in which byte order the machine writes
//! its numbers.

pub mod bytes;
pub mod camera;
pub mod draw;
pub mod gauss;
pub mod graphics;
pub mod input;
pub mod lighting;
pub mod partition;
pub mod patch;
pub mod system;
pub mod types;
pub mod util;

pub use crate::bytes::ByteOrder;
pub use crate::camera::Camera;
pub use crate::gauss::Gaussian;
pub use crate::graphics::EntityUpdate;
pub use crate::input::InputsCommanded;
pub use crate::lighting::{LightType, Lighting, PointLight};
pub use crate::types::{
    Bucket, EngineUpdates, Entity, GraphicsSettings, Instance, Mesh, UiLayout, UiSettings, Vertex,
};
