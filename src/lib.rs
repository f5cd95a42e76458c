//! Frame compositor logic for a raytraced scene with a bloom post-process.
//!
//! - `std140`: a byte buffer that lays out scalars, vectors, matrices and
//!   nested structures by the GPU uniform alignment rules.
//! - `vector`: the plain vector and matrix values it writes.
//! - `scene` and `camera`: the scene objects and camera data, and their
//!   serialized GPU layouts.
//! - `layout`: reading those layouts back, and the proof that packing and
//!   reading agree.
//! - `bloom`: the bloom mip chain: its length and its passes in order.
//! - `compositor`: which passes rebuild, and in what order, when the surface
//!   is resized or a shader reloaded, and what each frame does.
//! - `shader`: shader sources, include resolution and the fallback program.

pub mod bloom;
pub mod camera;
pub mod compositor;
pub mod layout;
pub mod scene;
pub mod shader;
pub mod std140;
pub mod vector;
