//! The spatial layer: meshes in world space.

use vstd::prelude::*;

pub mod entity;
pub mod obj;
pub mod renderer;

pub use entity::Entity;
pub use renderer::Renderer;

verus! {

/// The position of a vertex in the vertex buffer of its mesh.
pub type VertexIndex = u32;

} // verus!
