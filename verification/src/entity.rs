//! Plain textured quads: one that shows a texture as it is, and one that
//! moves its texture coordinates between the named states of a texture.

use vstd::pervasive::unreached;
use vstd::prelude::*;
use vstd::slice::slice_to_vec;
use crate::hud::entity::{default_vertices, states_of, table_uvs, uvs_of, with_uvs, write_uvs};
use crate::hud::HudUniformInterface;
use crate::names::{lemma_first_position, occurs, value_under, NameTable};
use crate::single::Single;

pub use crate::hud::{Vertex, VertexPosition, VertexSemantics, VertexUV};
pub use crate::texture::TextureData;

verus! {

/// What can be drawn as a quad of the HUD.
pub trait Renderable {
    /// The values that the shaders read when this is drawn on a surface of
    /// `size` pixels; `depth_tex` stays as the interface has it.
    spec fn uniforms(&self, iface: HudUniformInterface, size: [u32; 2]) -> HudUniformInterface;

    /// Writes into `iface` what the shaders read when this is drawn on a
    /// surface of `size` pixels.
    fn render(&self, iface: &mut HudUniformInterface, size: &[u32; 2])
        ensures
            *final(iface) == self.uniforms(*old(iface), *size),
    ;
}

/// What a simple entity is, as plain values.
pub struct SimpleEntityView {
    /// The vertex buffer of the quad.
    pub vertices: Seq<Vertex>,
    /// The index buffer of the quad.
    pub indices: Seq<u8>,
    /// The size of the texture, in texels.
    pub tex_size: [u32; 2],
    /// The factor by which the quad is scaled.
    pub scale: Single,
    /// Where the quad stands on the screen, in pixels.
    pub pos: [i32; 2],
    /// The depth of the quad.
    pub depth: Single,
}

/// A quad that shows a texture.
pub struct SimpleEntity {
    vao: Vec<Vertex>,
    indices: Vec<u8>,
    tex_size: [u32; 2],
    scale: Single,
    pos: [i32; 2],
    depth: Single,
}

impl SimpleEntity {
    /// The entity as plain values.
    pub closed spec fn view(&self) -> SimpleEntityView {
        SimpleEntityView {
            vertices: self.vao@,
            indices: self.indices@,
            tex_size: self.tex_size,
            scale: self.scale,
            pos: self.pos,
            depth: self.depth,
        }
    }

    /// A new entity over the given buffers and texture: at the origin, of
    /// scale one and depth zero.
    pub open spec fn fresh(vertices: Seq<Vertex>, indices: Seq<u8>, tex_size: [u32; 2]) -> SimpleEntityView {
        SimpleEntityView {
            vertices,
            indices,
            tex_size,
            scale: Single::spec_one(),
            pos: [0i32, 0i32],
            depth: Single::spec_zero(),
        }
    }

    /// An entity over the image of the size `img_size`, or nothing where
    /// the image could not be had.
    pub fn new(vertices: &[Vertex], indices: &[u8], img_size: Option<[u32; 2]>) -> (entity: Option<
        SimpleEntity,
    >)
        ensures
            match img_size {
                Some(size) => entity is Some && entity->Some_0@ == Self::fresh(
                    vertices@,
                    indices@,
                    size,
                ),
                None => entity is None,
            },
    {
        if let Some(size) = img_size {
            return Some(Self::new_from_img(vertices, indices, size));
        }
        None
    }

    /// An entity over an image of the size `img_size`.
    pub fn new_from_img(vertices: &[Vertex], indices: &[u8], img_size: [u32; 2]) -> (entity:
        SimpleEntity)
        ensures
            entity@ == Self::fresh(vertices@, indices@, img_size),
    {
        Self::new_from_tex(vertices, indices, img_size)
    }

    /// An entity over a texture of the size `tex_size`.
    pub fn new_from_tex(vertices: &[Vertex], indices: &[u8], tex_size: [u32; 2]) -> (entity:
        SimpleEntity)
        ensures
            entity@ == Self::fresh(vertices@, indices@, tex_size),
    {
        SimpleEntity {
            vao: slice_to_vec(vertices),
            indices: slice_to_vec(indices),
            tex_size,
            scale: Single::one(),
            pos: [0, 0],
            depth: Single::zero(),
        }
    }

    /// Moves the quad to `new_pos`.
    pub fn set_pos(&mut self, new_pos: [i32; 2])
        ensures
            final(self)@ == (SimpleEntityView { pos: new_pos, ..old(self)@ }),
    {
        self.pos = new_pos
    }

    /// Sets the factor by which the quad is scaled.
    pub fn set_scale(&mut self, new_scale: Single)
        ensures
            final(self)@ == (SimpleEntityView { scale: new_scale, ..old(self)@ }),
    {
        self.scale = new_scale
    }

    /// Sets the depth.
    pub fn set_depth(&mut self, new_depth: Single)
        ensures
            final(self)@ == (SimpleEntityView { depth: new_depth, ..old(self)@ }),
    {
        self.depth = new_depth
    }

    /// Writes `new_uv` over the texture coordinates of the vertices, one
    /// for one.
    pub fn update_uv(&mut self, new_uv: &[VertexUV])
        requires
            new_uv@.len() >= old(self)@.vertices.len(),
        ensures
            final(self)@ == (SimpleEntityView {
                vertices: with_uvs(old(self)@.vertices, new_uv@),
                ..old(self)@
            }),
    {
        write_uvs(&mut self.vao, new_uv);
    }

    /// The vertex buffer of the quad.
    pub fn vertices(&self) -> (vertices: &Vec<Vertex>)
        ensures
            vertices@ == self@.vertices,
    {
        &self.vao
    }

    /// The index buffer of the quad.
    pub fn indices(&self) -> (indices: &Vec<u8>)
        ensures
            indices@ == self@.indices,
    {
        &self.indices
    }
}

impl Renderable for SimpleEntity {
    open spec fn uniforms(&self, iface: HudUniformInterface, size: [u32; 2]) -> HudUniformInterface {
        HudUniformInterface {
            pos: self@.pos,
            depth: self@.depth,
            scale: self@.scale,
            size,
            tex_size: self@.tex_size,
            depth_tex: iface.depth_tex,
        }
    }

    fn render(&self, iface: &mut HudUniformInterface, size: &[u32; 2]) {
        iface.size = *size;
        iface.pos = self.pos;
        iface.depth = self.depth;
        iface.scale = self.scale;
        iface.tex_size = self.tex_size;
    }
}

/// A quad over a texture with named states.
pub struct DynamicStateTexEntity {
    simple_entity: SimpleEntity,
    uv_states: NameTable<Vec<VertexUV>>,
}

impl DynamicStateTexEntity {
    /// The quad.
    pub closed spec fn quad(&self) -> SimpleEntityView {
        self.simple_entity@
    }

    /// The names of the states, in the order of the table.
    pub closed spec fn spec_state_ids(&self) -> Seq<Seq<char>> {
        self.uv_states.names()
    }

    /// The texture coordinates of each state, in the order of the table.
    pub closed spec fn state_uvs(&self) -> Seq<Seq<VertexUV>> {
        table_uvs(self.uv_states.values())
    }

    /// The invariant: the states have distinct names and each has texture
    /// coordinates for every vertex.
    pub open spec fn wf(&self) -> bool {
        &&& self.spec_state_ids().len() == self.state_uvs().len()
        &&& self.spec_state_ids().no_duplicates()
        &&& forall|i: int|
            0 <= i < self.state_uvs().len() ==> (#[trigger] self.state_uvs()[i]).len()
                >= self.quad().vertices.len()
    }

    /// Whether the entity has a state of this name.
    pub open spec fn has_state(&self, id: Seq<char>) -> bool {
        occurs(self.spec_state_ids(), id)
    }

    /// The texture coordinates of the state `id`.
    pub open spec fn state(&self, id: Seq<char>) -> Seq<VertexUV> {
        value_under(self.spec_state_ids(), self.state_uvs(), id)
    }

    /// An entity with the states of `tex_data` over its image, in the
    /// default state.
    pub fn new(
        vertices_pos: &[VertexPosition],
        indices: &[u8],
        tex_data: &TextureData,
        img_size: [u32; 2],
    ) -> (entity: Self)
        requires
            tex_data.spec_covers(vertices_pos@.len()),
        ensures
            entity.quad() == SimpleEntity::fresh(
                default_vertices(vertices_pos@, *tex_data),
                indices@,
                img_size,
            ),
            entity.spec_state_ids() == tex_data.uv.names(),
            entity.state_uvs() == states_of(*tex_data),
            entity.wf(),
    {
        let n = vertices_pos.len();
        let def_uv = match tex_data.uv.get(tex_data.default_uv.as_str()) {
            Some(def_uv) => def_uv,
            None => unreached(),
        };
        proof {
            let names = tex_data.uv.names();
            let at = choose|at: int| 0 <= at < names.len() && names[at] == tex_data.default_uv@;
            lemma_first_position(names, tex_data.default_uv@, at);
        }
        let mut vertices: Vec<Vertex> = Vec::new();
        let mut i: usize = 0;
        while i < n
            invariant
                i <= n,
                n == vertices_pos@.len(),
                def_uv@.len() >= n,
                vertices@.len() == i,
                forall|k: int|
                    0 <= k < i ==> vertices@[k] == (Vertex {
                        position: vertices_pos@[k],
                        uv: uvs_of(def_uv@)[k],
                    }),
            decreases n - i,
        {
            let uv = VertexUV::new([def_uv[i].0, def_uv[i].1]);
            vertices.push(Vertex::new(vertices_pos[i], uv));
            i += 1;
        }
        let count = tex_data.uv.len();
        let mut uv_states: NameTable<Vec<VertexUV>> = NameTable::new();
        let mut s: usize = 0;
        while s < count
            invariant
                s <= count,
                count == tex_data.uv.spec_len(),
                tex_data.spec_covers(n as nat),
                uv_states.names() == tex_data.uv.names().take(s as int),
                uv_states.values().len() == s,
                forall|k: int|
                    0 <= k < s ==> (#[trigger] uv_states.values()[k])@ == uvs_of(
                        tex_data.uv.values()[k]@,
                    ),
            decreases count - s,
        {
            let pairs = tex_data.uv.value_at(s);
            let mut uvs: Vec<VertexUV> = Vec::new();
            let mut j: usize = 0;
            while j < pairs.len()
                invariant
                    j <= pairs@.len(),
                    uvs@.len() == j,
                    forall|k: int| 0 <= k < j ==> uvs@[k] == uvs_of(pairs@)[k],
                decreases pairs@.len() - j,
            {
                uvs.push(VertexUV::new([pairs[j].0, pairs[j].1]));
                j += 1;
            }
            assert(uvs@ =~= uvs_of(pairs@));
            let name = tex_data.uv.name_at(s);
            proof {
                let names = tex_data.uv.names();
                assert(!occurs(names.take(s as int), name@)) by {
                    if occurs(names.take(s as int), name@) {
                        let at = choose|at: int|
                            0 <= at < names.take(s as int).len() && names.take(s as int)[at]
                                == name@;
                        assert(names[at] == names[s as int]);
                    }
                }
                assert(names.take(s as int).push(name@) =~= names.take(s + 1));
            }
            uv_states.insert(name.as_str(), uvs);
            s += 1;
        }
        let entity = Self {
            simple_entity: SimpleEntity::new_from_img(vertices.as_slice(), indices, img_size),
            uv_states,
        };
        proof {
            assert(tex_data.uv.names().take(count as int) =~= tex_data.uv.names());
            assert(entity.quad().vertices =~= default_vertices(vertices_pos@, *tex_data));
            assert(entity.state_uvs() =~= states_of(*tex_data));
        }
        entity
    }

    /// An entity with the states of the texture description that was read.
    pub fn load(
        vertices_pos: &[VertexPosition],
        indices: &[u8],
        tex_data: &TextureData,
        img_size: [u32; 2],
    ) -> (entity: Self)
        requires
            tex_data.spec_covers(vertices_pos@.len()),
        ensures
            entity.quad() == SimpleEntity::fresh(
                default_vertices(vertices_pos@, *tex_data),
                indices@,
                img_size,
            ),
            entity.spec_state_ids() == tex_data.uv.names(),
            entity.state_uvs() == states_of(*tex_data),
            entity.wf(),
    {
        Self::new(vertices_pos, indices, tex_data, img_size)
    }

    /// Moves the quad to `new_pos`.
    pub fn set_pos(&mut self, new_pos: [i32; 2])
        ensures
            final(self).quad() == (SimpleEntityView { pos: new_pos, ..old(self).quad() }),
            final(self).spec_state_ids() == old(self).spec_state_ids(),
            final(self).state_uvs() == old(self).state_uvs(),
    {
        self.simple_entity.set_pos(new_pos)
    }

    /// Sets the factor by which the quad is scaled.
    pub fn set_scale(&mut self, new_scale: Single)
        ensures
            final(self).quad() == (SimpleEntityView { scale: new_scale, ..old(self).quad() }),
            final(self).spec_state_ids() == old(self).spec_state_ids(),
            final(self).state_uvs() == old(self).state_uvs(),
    {
        self.simple_entity.set_scale(new_scale)
    }

    /// Sets the depth.
    pub fn set_depth(&mut self, new_depth: Single)
        ensures
            final(self).quad() == (SimpleEntityView { depth: new_depth, ..old(self).quad() }),
            final(self).spec_state_ids() == old(self).spec_state_ids(),
            final(self).state_uvs() == old(self).state_uvs(),
    {
        self.simple_entity.set_depth(new_depth)
    }

    /// The names of the states, in the order of the table.
    pub fn state_ids(&self) -> (ids: Vec<&String>)
        ensures
            ids@.len() == self.spec_state_ids().len(),
            forall|i: int| 0 <= i < ids@.len() ==> ids@[i]@ == self.spec_state_ids()[i],
    {
        let mut ids: Vec<&String> = Vec::new();
        let count = self.uv_states.len();
        let mut i: usize = 0;
        while i < count
            invariant
                i <= count,
                count == self.uv_states.spec_len(),
                ids@.len() == i,
                forall|k: int| 0 <= k < i ==> ids@[k]@ == self.uv_states.names()[k],
            decreases count - i,
        {
            ids.push(self.uv_states.name_at(i));
            i += 1;
        }
        ids
    }

    /// Puts the quad into the state `id`: writes the texture coordinates of
    /// that state over those of the vertices. Fails, and changes nothing,
    /// where the entity has no state of that name.
    pub fn set_state(&mut self, id: &str) -> (result: Result<(), ()>)
        requires
            old(self).wf(),
        ensures
            result is Ok <==> old(self).has_state(id@),
            old(self).has_state(id@) ==> final(self).quad() == (SimpleEntityView {
                vertices: with_uvs(old(self).quad().vertices, old(self).state(id@)),
                ..old(self).quad()
            }),
            !old(self).has_state(id@) ==> final(self).quad() == old(self).quad(),
            final(self).spec_state_ids() == old(self).spec_state_ids(),
            final(self).state_uvs() == old(self).state_uvs(),
            final(self).wf(),
    {
        if let Some(at) = self.uv_states.position(id) {
            proof {
                lemma_first_position(self.uv_states.names(), id@, at as int);
                assert(table_uvs(self.uv_states.values())[at as int]
                    == self.uv_states.values()[at as int]@);
            }
            let res = self.uv_states.value_at(at);
            self.simple_entity.update_uv(res.as_slice());
            return Ok(());
        }
        return Err(());
    }

    /// The quad, as it is drawn.
    pub fn simple_entity(&self) -> (quad: &SimpleEntity)
        ensures
            quad@ == self.quad(),
    {
        &self.simple_entity
    }
}

impl Renderable for DynamicStateTexEntity {
    open spec fn uniforms(&self, iface: HudUniformInterface, size: [u32; 2]) -> HudUniformInterface {
        HudUniformInterface {
            pos: self.quad().pos,
            depth: self.quad().depth,
            scale: self.quad().scale,
            size,
            tex_size: self.quad().tex_size,
            depth_tex: iface.depth_tex,
        }
    }

    fn render(&self, iface: &mut HudUniformInterface, size: &[u32; 2]) {
        self.simple_entity.render(iface, size)
    }
}

} // verus!
