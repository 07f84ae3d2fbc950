//! The HUD layer: textured quads in screen space, drawn over the scene in
//! the order of their depths.

use vstd::prelude::*;
use crate::single::Single;

pub mod depth_entity;
pub mod entity;
pub mod renderer;

pub use depth_entity::Entity as DepthEntity;
pub use entity::{Entity, EntityKind};
pub use renderer::Renderer;

verus! {

/// What an attribute of a HUD vertex means to the shaders.
#[derive(Clone, Copy, Debug, PartialEq, Eq, Structural)]
pub enum VertexSemantics {
    /// The position on the screen, in pixels.
    Position,
    /// The texture coordinates, in texels.
    UV,
}

/// The position of a vertex on the screen, in pixels.
#[derive(Clone, Copy, Debug, PartialEq, Eq)]
pub struct VertexPosition {
    pub repr: [i32; 2],
}

impl VertexPosition {
    /// The position with the given coordinates.
    pub fn new(repr: [i32; 2]) -> (position: Self)
        ensures
            position.repr == repr,
    {
        VertexPosition { repr }
    }
}

/// The texture coordinates of a vertex, in texels.
#[derive(Clone, Copy, Debug, PartialEq, Eq)]
pub struct VertexUV {
    pub repr: [u32; 2],
}

impl VertexUV {
    /// The texture coordinates with the given components.
    pub fn new(repr: [u32; 2]) -> (uv: Self)
        ensures
            uv.repr == repr,
    {
        VertexUV { repr }
    }
}

/// A vertex of a HUD quad.
#[derive(Clone, Copy, Debug, PartialEq, Eq)]
pub struct Vertex {
    pub position: VertexPosition,
    pub uv: VertexUV,
}

impl Vertex {
    /// The vertex at `position` with the texture coordinates `uv`.
    pub fn new(position: VertexPosition, uv: VertexUV) -> (vertex: Self)
        ensures
            vertex.position == position,
            vertex.uv == uv,
    {
        Vertex { position, uv }
    }

    /// Replaces the texture coordinates and keeps the position.
    pub fn update_uv(&mut self, new_uv: VertexUV)
        ensures
            final(self).uv == new_uv,
            final(self).position == old(self).position,
    {
        self.uv = new_uv
    }

    /// Replaces the position and keeps the texture coordinates.
    pub fn update_pos(&mut self, new_pos: VertexPosition)
        ensures
            final(self).position == new_pos,
            final(self).uv == old(self).uv,
    {
        self.position = new_pos
    }

    /// The texture coordinates.
    pub fn get_uv(&self) -> (uv: &VertexUV)
        ensures
            *uv == self.uv,
    {
        &self.uv
    }

    /// The position.
    pub fn get_pos(&self) -> (position: &VertexPosition)
        ensures
            *position == self.position,
    {
        &self.position
    }
}

/// The values that the HUD shaders read for one draw call.
#[derive(Clone, Copy, Debug, PartialEq, Eq)]
pub struct HudUniformInterface {
    /// Where the quad stands on the screen, in pixels.
    pub pos: [i32; 2],
    /// The depth of the quad.
    pub depth: Single,
    /// The factor by which the quad is scaled.
    pub scale: Single,
    /// The size of the surface, in pixels.
    pub size: [u32; 2],
    /// The size of the texture, in texels.
    pub tex_size: [u32; 2],
    /// Whether the texture is a depth map, sampled as one channel.
    pub depth_tex: bool,
}

} // verus!
