//! The quad that shows the shadow map under the HUD.

use vstd::prelude::*;
use vstd::slice::slice_to_vec;
use crate::hud::{HudUniformInterface, Vertex};
use crate::single::Single;

verus! {

/// What a depth entity is, as plain values.
pub struct DepthEntityView {
    /// The vertex buffer of the quad.
    pub vertices: Seq<Vertex>,
    /// The index buffer of the quad.
    pub indices: Seq<u8>,
    /// The size of the depth map, in texels.
    pub tex_size: [u32; 2],
    /// The factor by which the quad is scaled.
    pub scale: Single,
    /// Where the quad stands on the screen, in pixels.
    pub pos: [i32; 2],
    /// The depth of the quad.
    pub depth: Single,
}

impl DepthEntityView {
    /// The values that the shaders read when the quad is drawn on a surface
    /// of `size` pixels; `depth_tex` stays as the interface has it.
    pub open spec fn uniforms(self, iface: HudUniformInterface, size: [u32; 2]) -> HudUniformInterface {
        HudUniformInterface {
            pos: self.pos,
            depth: self.depth,
            scale: self.scale,
            size,
            tex_size: self.tex_size,
            depth_tex: iface.depth_tex,
        }
    }
}

/// A quad over a depth map. The map itself is handed over at each draw.
pub struct Entity {
    vertices: Vec<Vertex>,
    indices: Vec<u8>,
    tex_size: [u32; 2],
    scale: Single,
    pos: [i32; 2],
    depth: Single,
}

impl Entity {
    /// The entity as plain values.
    pub closed spec fn view(&self) -> DepthEntityView {
        DepthEntityView {
            vertices: self.vertices@,
            indices: self.indices@,
            tex_size: self.tex_size,
            scale: self.scale,
            pos: self.pos,
            depth: self.depth,
        }
    }

    /// A quad over a depth map of `tex_size` texels: at the origin, of
    /// scale one and depth zero.
    pub fn new(vertices: &[Vertex], indices: &[u8], tex_size: [u32; 2]) -> (entity: Self)
        ensures
            entity@ == (DepthEntityView {
                vertices: vertices@,
                indices: indices@,
                tex_size,
                scale: Single::spec_one(),
                pos: [0i32, 0i32],
                depth: Single::spec_zero(),
            }),
    {
        Entity {
            vertices: slice_to_vec(vertices),
            indices: slice_to_vec(indices),
            tex_size,
            scale: Single::one(),
            pos: [0, 0],
            depth: Single::zero(),
        }
    }

    /// The depth.
    pub fn get_depth(&self) -> (depth: Single)
        ensures
            depth == self@.depth,
    {
        self.depth
    }

    /// The vertex buffer of the quad.
    pub fn vertices(&self) -> (vertices: &Vec<Vertex>)
        ensures
            vertices@ == self@.vertices,
    {
        &self.vertices
    }

    /// The index buffer of the quad.
    pub fn indices(&self) -> (indices: &Vec<u8>)
        ensures
            indices@ == self@.indices,
    {
        &self.indices
    }

    /// Writes into `iface` what the shaders read when the quad is drawn on
    /// a surface of `size` pixels. The entity stays as it is.
    pub fn render(&self, iface: &mut HudUniformInterface, size: &[u32; 2])
        ensures
            *final(iface) == self@.uniforms(*old(iface), *size),
    {
        iface.size = *size;
        iface.pos = self.pos;
        iface.depth = self.depth;
        iface.scale = self.scale;
        iface.tex_size = self.tex_size;
    }
}

} // verus!
