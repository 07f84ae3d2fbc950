//! The HUD entity: a textured quad with a place on the screen, a depth
//! that orders it among the others, and named states that move its
//! texture coordinates over the texture.

use vstd::pervasive::unreached;
use vstd::prelude::*;
use vstd::slice::slice_to_vec;
use crate::hud::{HudUniformInterface, Vertex, VertexPosition, VertexUV};
use crate::names::{first_position, lemma_first_position, occurs, value_under, NameTable};
use crate::single::Single;
use crate::texture::TextureData;

verus! {

/// Whether an entity shows a texture as it is or text drawn into one.
#[derive(Clone, Copy, Debug, PartialEq, Eq, Structural)]
pub enum EntityKind {
    /// A quad over a texture that stays as it is.
    Regular,
    /// A quad over text; the text can be replaced.
    Text,
}

/// The vertices with the texture coordinates `uvs`, one for one, and their
/// positions as they were.
pub open spec fn with_uvs(vertices: Seq<Vertex>, uvs: Seq<VertexUV>) -> Seq<Vertex> {
    Seq::new(
        vertices.len(),
        |i: int| Vertex { position: vertices[i].position, uv: uvs[i] },
    )
}

/// The vertices at the positions `positions`, one for one, and their
/// texture coordinates as they were.
pub open spec fn with_positions(vertices: Seq<Vertex>, positions: Seq<VertexPosition>) -> Seq<
    Vertex,
> {
    Seq::new(
        vertices.len(),
        |i: int| Vertex { position: positions[i], uv: vertices[i].uv },
    )
}

/// Vertices at the given positions with the given texture coordinates.
pub open spec fn replaced(vertices: Seq<Vertex>, with: Seq<(VertexPosition, VertexUV)>) -> Seq<
    Vertex,
> {
    Seq::new(vertices.len(), |i: int| Vertex { position: with[i].0, uv: with[i].1 })
}

/// The pairs of a texture description as texture coordinates.
pub open spec fn uvs_of(pairs: Seq<(u32, u32)>) -> Seq<VertexUV> {
    Seq::new(pairs.len(), |i: int| VertexUV { repr: [pairs[i].0, pairs[i].1] })
}

/// The quad that shows a whole texture of `size` texels, one pixel for each
/// texel: its corners run from the origin along x, then up, then back, and
/// take the texture coordinates `uvs` in this order.
pub open spec fn text_quad(size: [u32; 2], uvs: [[u32; 2]; 4]) -> Seq<Vertex> {
    let width = size[0];
    let height = size[1];
    seq![
        Vertex { position: VertexPosition { repr: [0i32, 0i32] }, uv: VertexUV { repr: uvs[0] } },
        Vertex {
            position: VertexPosition { repr: [width as i32, 0i32] },
            uv: VertexUV { repr: uvs[1] },
        },
        Vertex {
            position: VertexPosition { repr: [width as i32, height as i32] },
            uv: VertexUV { repr: uvs[2] },
        },
        Vertex {
            position: VertexPosition { repr: [0i32, height as i32] },
            uv: VertexUV { repr: uvs[3] },
        },
    ]
}

/// The two triangles of a text quad.
pub open spec fn text_quad_indices() -> Seq<u8> {
    seq![0u8, 1u8, 2u8, 0u8, 2u8, 3u8]
}

/// What an entity is, as plain values.
pub struct EntityView {
    /// The vertex buffer of the quad.
    pub vertices: Seq<Vertex>,
    /// The index buffer of the quad.
    pub indices: Seq<u8>,
    /// The size of the texture, in texels.
    pub tex_size: [u32; 2],
    /// The factor by which the quad is scaled.
    pub scale: Single,
    /// Where the quad stands on the screen, in pixels.
    pub pos: [i32; 2],
    /// The depth: of two entities the one with the greater depth is drawn
    /// first, and so lies under the other.
    pub depth: Single,
    /// Whether the entity has a table of states.
    pub has_states: bool,
    /// The names of the states, in the order of the table.
    pub state_ids: Seq<Seq<char>>,
    /// The texture coordinates of each state, in the order of the table.
    pub state_uvs: Seq<Seq<VertexUV>>,
    /// Whether the quad shows text.
    pub kind: EntityKind,
}

impl EntityView {
    /// The invariant: a text entity is a quad of four vertices; the states
    /// have distinct names and each has texture coordinates for every
    /// vertex; an entity without a table has no states.
    pub open spec fn wf(self) -> bool {
        &&& self.kind == EntityKind::Text ==> self.vertices.len() == 4
        &&& self.state_ids.len() == self.state_uvs.len()
        &&& self.state_ids.no_duplicates()
        &&& !self.has_states ==> self.state_ids.len() == 0
        &&& forall|i: int|
            0 <= i < self.state_uvs.len() ==> (#[trigger] self.state_uvs[i]).len()
                >= self.vertices.len()
    }

    /// Whether the entity has a state of this name.
    pub open spec fn has_state(self, id: Seq<char>) -> bool {
        self.has_states && occurs(self.state_ids, id)
    }

    /// The texture coordinates of the state `id`.
    pub open spec fn state(self, id: Seq<char>) -> Seq<VertexUV> {
        value_under(self.state_ids, self.state_uvs, id)
    }

    /// The entity with other vertices.
    pub open spec fn with_vertices(self, vertices: Seq<Vertex>) -> EntityView {
        EntityView { vertices, ..self }
    }

    /// The entity after `set_state(id)`: in the state `id` if it has that
    /// state, else as it was.
    pub open spec fn set_state(self, id: Seq<char>) -> EntityView {
        if self.has_state(id) {
            self.with_vertices(with_uvs(self.vertices, self.state(id)))
        } else {
            self
        }
    }

    /// Whether `update_text` succeeds: the entity shows text and the text
    /// was drawn.
    pub open spec fn takes_text(self, tex: Option<([u32; 2], [[u32; 2]; 4])>) -> bool {
        self.kind == EntityKind::Text && tex is Some
    }

    /// The entity after `update_text`: over the new texture if it shows text
    /// and the text was drawn, else as it was.
    pub open spec fn update_text(self, tex: Option<([u32; 2], [[u32; 2]; 4])>) -> EntityView {
        if self.takes_text(tex) {
            EntityView {
                vertices: text_quad(tex->Some_0.0, tex->Some_0.1),
                tex_size: tex->Some_0.0,
                ..self
            }
        } else {
            self
        }
    }

    /// The values that the shaders read when the entity is drawn on a
    /// surface of `size` pixels; `depth_tex` stays as the interface has it.
    pub open spec fn uniforms(self, iface: HudUniformInterface, size: [u32; 2]) -> HudUniformInterface {
        HudUniformInterface {
            pos: self.pos,
            depth: self.depth,
            scale: self.scale,
            size,
            tex_size: self.tex_size,
            depth_tex: iface.depth_tex,
        }
    }
}

/// A new entity over the given buffers and texture: at the origin, of
/// scale one and depth zero, without states.
pub open spec fn fresh(
    vertices: Seq<Vertex>,
    indices: Seq<u8>,
    tex_size: [u32; 2],
    kind: EntityKind,
) -> EntityView {
    EntityView {
        vertices,
        indices,
        tex_size,
        scale: Single::spec_one(),
        pos: [0i32, 0i32],
        depth: Single::spec_zero(),
        has_states: false,
        state_ids: Seq::empty(),
        state_uvs: Seq::empty(),
        kind,
    }
}

/// The vertices of a quad at the positions `positions` in the default
/// state of `tex_data`.
pub open spec fn default_vertices(positions: Seq<VertexPosition>, tex_data: TextureData) -> Seq<
    Vertex,
> {
    Seq::new(
        positions.len(),
        |i: int|
            Vertex {
                position: positions[i],
                uv: uvs_of(tex_data.uv.value_of(tex_data.default_uv@)@)[i],
            },
    )
}

/// The texture coordinates of each state of `tex_data`, in the order of
/// its table.
pub open spec fn states_of(tex_data: TextureData) -> Seq<Seq<VertexUV>> {
    Seq::new(tex_data.uv.values().len(), |i: int| uvs_of(tex_data.uv.values()[i]@))
}

/// A new entity with the states of `tex_data` over its image, in the
/// default state.
pub open spec fn with_texture_data(
    positions: Seq<VertexPosition>,
    indices: Seq<u8>,
    tex_data: TextureData,
    img_size: [u32; 2],
) -> EntityView {
    EntityView {
        vertices: default_vertices(positions, tex_data),
        has_states: true,
        state_ids: tex_data.uv.names(),
        state_uvs: states_of(tex_data),
        ..fresh(Seq::empty(), indices, img_size, EntityKind::Regular)
    }
}

/// A HUD entity.
pub struct Entity {
    vertices: Vec<Vertex>,
    indices: Vec<u8>,
    tex_size: [u32; 2],
    scale: Single,
    pos: [i32; 2],
    depth: Single,
    uv_states: Option<NameTable<Vec<VertexUV>>>,
    kind: EntityKind,
}

/// The texture coordinates of each state of a table.
pub open spec fn table_uvs(values: Seq<Vec<VertexUV>>) -> Seq<Seq<VertexUV>> {
    Seq::new(values.len(), |i: int| values[i]@)
}

/// Writes `new_uv` over the texture coordinates of `vertices`, one for one.
pub(crate) fn write_uvs(vertices: &mut Vec<Vertex>, new_uv: &[VertexUV])
    requires
        new_uv@.len() >= old(vertices)@.len(),
    ensures
        final(vertices)@ == with_uvs(old(vertices)@, new_uv@),
{
    let n = vertices.len();
    let mut i: usize = 0;
    while i < n
        invariant
            i <= n,
            n == vertices@.len(),
            n == old(vertices)@.len(),
            new_uv@.len() >= n,
            forall|k: int|
                0 <= k < i ==> vertices@[k] == (Vertex {
                    position: old(vertices)@[k].position,
                    uv: new_uv@[k],
                }),
            forall|k: int| i <= k < n ==> vertices@[k] == old(vertices)@[k],
        decreases n - i,
    {
        let mut vertex = vertices[i];
        vertex.update_uv(new_uv[i]);
        vertices[i] = vertex;
        i += 1;
    }
    assert(vertices@ =~= with_uvs(old(vertices)@, new_uv@));
}

impl Entity {
    /// The entity as plain values.
    pub closed spec fn view(&self) -> EntityView {
        EntityView {
            vertices: self.vertices@,
            indices: self.indices@,
            tex_size: self.tex_size,
            scale: self.scale,
            pos: self.pos,
            depth: self.depth,
            has_states: self.uv_states is Some,
            state_ids: match self.uv_states {
                Some(table) => table.names(),
                None => Seq::empty(),
            },
            state_uvs: match self.uv_states {
                Some(table) => table_uvs(table.values()),
                None => Seq::empty(),
            },
            kind: self.kind,
        }
    }

    /// The invariant of the entity.
    pub open spec fn wf(&self) -> bool {
        self@.wf()
    }

    /// An entity of the given kind over the given buffers and texture.
    fn assemble(vertices: &[Vertex], indices: &[u8], tex_size: [u32; 2], kind: EntityKind) -> (entity:
        Self)
        ensures
            entity@ == fresh(vertices@, indices@, tex_size, kind),
    {
        let entity = Entity {
            vertices: slice_to_vec(vertices),
            indices: slice_to_vec(indices),
            tex_size,
            scale: Single::one(),
            pos: [0, 0],
            depth: Single::zero(),
            uv_states: None,
            kind,
        };
        assert(entity@.state_ids =~= Seq::<Seq<char>>::empty());
        assert(entity@.state_uvs =~= Seq::<Seq<VertexUV>>::empty());
        entity
    }

    /// A regular entity over the image of the size `img_size`, or nothing
    /// where the image could not be had.
    pub fn new(vertices: &[Vertex], indices: &[u8], img_size: Option<[u32; 2]>) -> (entity: Option<
        Self,
    >)
        ensures
            match img_size {
                Some(size) => entity is Some && entity->Some_0@ == fresh(
                    vertices@,
                    indices@,
                    size,
                    EntityKind::Regular,
                ) && entity->Some_0.wf(),
                None => entity is None,
            },
    {
        match img_size {
            Some(size) => Some(Self::new_from_img(vertices, indices, size)),
            None => None,
        }
    }

    /// A regular entity over an image of the size `img_size`.
    pub fn new_from_img(vertices: &[Vertex], indices: &[u8], img_size: [u32; 2]) -> (entity: Self)
        ensures
            entity@ == fresh(vertices@, indices@, img_size, EntityKind::Regular),
            entity.wf(),
    {
        Self::new_from_tex(vertices, indices, img_size)
    }

    /// A regular entity over a texture of the size `tex_size`.
    pub fn new_from_tex(vertices: &[Vertex], indices: &[u8], tex_size: [u32; 2]) -> (entity: Self)
        ensures
            entity@ == fresh(vertices@, indices@, tex_size, EntityKind::Regular),
            entity.wf(),
    {
        Self::assemble(vertices, indices, tex_size, EntityKind::Regular)
    }

    /// An entity with the states of `tex_data` over its image, in the
    /// default state.
    pub fn new_with_texture_data(
        vertices_pos: &[VertexPosition],
        indices: &[u8],
        tex_data: &TextureData,
        img_size: [u32; 2],
    ) -> (entity: Self)
        requires
            tex_data.spec_covers(vertices_pos@.len()),
        ensures
            entity@ == with_texture_data(vertices_pos@, indices@, *tex_data, img_size),
            entity.wf(),
    {
        let n = vertices_pos.len();
        let def_uv = match tex_data.uv.get(tex_data.default_uv.as_str()) {
            Some(def_uv) => def_uv,
            None => unreached(),
        };
        proof {
            let names = tex_data.uv.names();
            let at = choose|at: int| 0 <= at < names.len() && names[at] == tex_data.default_uv@;
            lemma_first_position(names, tex_data.default_uv@, at);
        }
        let mut vertices: Vec<Vertex> = Vec::new();
        let mut i: usize = 0;
        while i < n
            invariant
                i <= n,
                n == vertices_pos@.len(),
                def_uv@.len() >= n,
                vertices@.len() == i,
                forall|k: int|
                    0 <= k < i ==> vertices@[k] == (Vertex {
                        position: vertices_pos@[k],
                        uv: uvs_of(def_uv@)[k],
                    }),
            decreases n - i,
        {
            let uv = VertexUV::new([def_uv[i].0, def_uv[i].1]);
            vertices.push(Vertex::new(vertices_pos[i], uv));
            i += 1;
        }
        let count = tex_data.uv.len();
        let mut uv_states: NameTable<Vec<VertexUV>> = NameTable::new();
        let mut s: usize = 0;
        while s < count
            invariant
                s <= count,
                count == tex_data.uv.spec_len(),
                tex_data.spec_covers(n as nat),
                uv_states.names() == tex_data.uv.names().take(s as int),
                uv_states.values().len() == s,
                forall|k: int|
                    0 <= k < s ==> (#[trigger] uv_states.values()[k])@ == uvs_of(
                        tex_data.uv.values()[k]@,
                    ),
            decreases count - s,
        {
            let pairs = tex_data.uv.value_at(s);
            let mut uvs: Vec<VertexUV> = Vec::new();
            let mut j: usize = 0;
            while j < pairs.len()
                invariant
                    j <= pairs@.len(),
                    uvs@.len() == j,
                    forall|k: int| 0 <= k < j ==> uvs@[k] == uvs_of(pairs@)[k],
                decreases pairs@.len() - j,
            {
                uvs.push(VertexUV::new([pairs[j].0, pairs[j].1]));
                j += 1;
            }
            assert(uvs@ =~= uvs_of(pairs@));
            let name = tex_data.uv.name_at(s);
            proof {
                let names = tex_data.uv.names();
                assert(!occurs(names.take(s as int), name@)) by {
                    if occurs(names.take(s as int), name@) {
                        let at = choose|at: int|
                            0 <= at < names.take(s as int).len() && names.take(s as int)[at]
                                == name@;
                        assert(names[at] == names[s as int]);
                    }
                }
                assert(names.take(s as int).push(name@) =~= names.take(s + 1));
            }
            uv_states.insert(name.as_str(), uvs);
            s += 1;
        }
        let entity = Entity {
            vertices,
            indices: slice_to_vec(indices),
            tex_size: img_size,
            scale: Single::one(),
            pos: [0, 0],
            depth: Single::zero(),
            uv_states: Some(uv_states),
            kind: EntityKind::Regular,
        };
        proof {
            assert(tex_data.uv.names().take(count as int) =~= tex_data.uv.names());
            assert(entity@.vertices =~= default_vertices(vertices_pos@, *tex_data));
            assert(entity@.state_uvs =~= states_of(*tex_data));
        }
        entity
    }

    /// An entity with the states of the texture description, or nothing
    /// where the description could not be had.
    pub fn load(
        vertices_pos: &[VertexPosition],
        indices: &[u8],
        tex_data: Option<&TextureData>,
        img_size: [u32; 2],
    ) -> (entity: Option<Self>)
        requires
            tex_data matches Some(data) ==> data.spec_covers(vertices_pos@.len()),
        ensures
            match tex_data {
                Some(data) => entity is Some && entity->Some_0@ == with_texture_data(
                    vertices_pos@,
                    indices@,
                    *data,
                    img_size,
                ) && entity->Some_0.wf(),
                None => entity is None,
            },
    {
        match tex_data {
            Some(x) => Some(Self::new_with_texture_data(vertices_pos, indices, x, img_size)),
            None => None,
        }
    }

    /// A text entity over the texture that the text was drawn into, given
    /// by its size and the texture coordinates of its corners, or nothing
    /// where the text could not be drawn.
    pub fn new_entity_from_string(tex: Option<([u32; 2], [[u32; 2]; 4])>) -> (entity: Option<Self>)
        ensures
            match tex {
                Some((size, uvs)) => entity is Some && entity->Some_0@ == fresh(
                    text_quad(size, uvs),
                    text_quad_indices(),
                    size,
                    EntityKind::Text,
                ) && entity->Some_0.wf(),
                None => entity is None,
            },
    {
        match tex {
            Some((size, uvs)) => {
                let quad = text_quad_vertices(size, uvs);
                let indices: [u8; 6] = [0, 1, 2, 0, 2, 3];
                assert(indices@ =~= text_quad_indices());
                let entity = Self::assemble(
                    quad.as_slice(),
                    indices.as_slice(),
                    size,
                    EntityKind::Text,
                );
                Some(entity)
            },
            None => None,
        }
    }

    /// Moves the quad to `new_pos`.
    pub fn set_pos(&mut self, new_pos: [i32; 2])
        ensures
            final(self)@ == (EntityView { pos: new_pos, ..old(self)@ }),
    {
        self.pos = new_pos
    }

    /// Sets the factor by which the quad is scaled.
    pub fn set_scale(&mut self, new_scale: Single)
        ensures
            final(self)@ == (EntityView { scale: new_scale, ..old(self)@ }),
    {
        self.scale = new_scale
    }

    /// Sets the depth.
    pub fn set_depth(&mut self, new_depth: Single)
        ensures
            final(self)@ == (EntityView { depth: new_depth, ..old(self)@ }),
    {
        self.depth = new_depth
    }

    /// The depth.
    pub fn get_depth(&self) -> (depth: Single)
        ensures
            depth == self@.depth,
    {
        self.depth
    }

    /// The vertex buffer of the quad.
    pub fn vertices(&self) -> (vertices: &Vec<Vertex>)
        ensures
            vertices@ == self@.vertices,
    {
        &self.vertices
    }

    /// The index buffer of the quad.
    pub fn indices(&self) -> (indices: &Vec<u8>)
        ensures
            indices@ == self@.indices,
    {
        &self.indices
    }

    /// The size of the texture, in texels.
    pub fn tex_size(&self) -> (size: [u32; 2])
        ensures
            size == self@.tex_size,
    {
        self.tex_size
    }

    /// Whether the quad shows text.
    pub fn kind(&self) -> (kind: EntityKind)
        ensures
            kind == self@.kind,
    {
        self.kind
    }

    /// The names of the states, in the order of the table.
    pub fn state_ids(&self) -> (ids: Vec<&String>)
        ensures
            ids@.len() == self@.state_ids.len(),
            forall|i: int| 0 <= i < ids@.len() ==> ids@[i]@ == self@.state_ids[i],
    {
        let mut ids: Vec<&String> = Vec::new();
        if let Some(uv_states) = &self.uv_states {
            let count = uv_states.len();
            let mut i: usize = 0;
            while i < count
                invariant
                    i <= count,
                    count == uv_states.spec_len(),
                    ids@.len() == i,
                    forall|k: int| 0 <= k < i ==> ids@[k]@ == uv_states.names()[k],
                decreases count - i,
            {
                ids.push(uv_states.name_at(i));
                i += 1;
            }
        }
        ids
    }

    /// Puts the quad into the state `id`: writes the texture coordinates of
    /// that state over those of the vertices. Fails, and changes nothing,
    /// where the entity has no state of that name.
    pub fn set_state(&mut self, id: &str) -> (result: Result<(), ()>)
        requires
            old(self).wf(),
        ensures
            result is Ok <==> old(self)@.has_state(id@),
            final(self)@ == old(self)@.set_state(id@),
            final(self).wf(),
    {
        if let Some(uv_states) = &self.uv_states {
            if let Some(at) = uv_states.position(id) {
                proof {
                    lemma_first_position(uv_states.names(), id@, at as int);
                    assert(table_uvs(uv_states.values())[at as int] == uv_states.values()[at as int]@);
                }
                let res = uv_states.value_at(at);
                write_uvs(&mut self.vertices, res.as_slice());
                return Ok(());
            }
        }
        return Err(());
    }

    /// Writes `new_uv` over the texture coordinates of the vertices, one
    /// for one.
    pub fn update_uv(&mut self, new_uv: &[VertexUV])
        requires
            new_uv@.len() >= old(self)@.vertices.len(),
        ensures
            final(self)@ == old(self)@.with_vertices(with_uvs(old(self)@.vertices, new_uv@)),
            old(self).wf() ==> final(self).wf(),
    {
        write_uvs(&mut self.vertices, new_uv);
    }

    /// Shows the text that was drawn into a texture, given by its size and
    /// the texture coordinates of its corners: takes that size and becomes
    /// the quad over the whole texture. Fails, and changes nothing, where
    /// the entity does not show text or the text could not be drawn.
    pub fn update_text(&mut self, tex: Option<([u32; 2], [[u32; 2]; 4])>) -> (result: Result<
        (),
        (),
    >)
        requires
            old(self).wf(),
        ensures
            result is Ok <==> old(self)@.takes_text(tex),
            final(self)@ == old(self)@.update_text(tex),
            final(self).wf(),
    {
        if let EntityKind::Text = self.kind {
            if let Some((size, uvs)) = tex {
                self.tex_size = size;
                let quad = text_quad_vertices(size, uvs);
                let mut new_v: Vec<(VertexPosition, VertexUV)> = Vec::new();
                let mut i: usize = 0;
                while i < 4
                    invariant
                        i <= 4,
                        new_v@.len() == i,
                        quad@ == text_quad(size, uvs),
                        forall|k: int|
                            0 <= k < i ==> new_v@[k] == (quad@[k].position, quad@[k].uv),
                    decreases 4 - i,
                {
                    new_v.push((quad[i].position, quad[i].uv));
                    i += 1;
                }
                self.update(new_v.as_slice());
                assert(self@.vertices =~= text_quad(size, uvs));
                return Ok(());
            }
        }
        Err(())
    }

    /// Writes `new_pos` over the positions of the vertices, one for one.
    pub fn update_pos(&mut self, new_pos: &[VertexPosition])
        requires
            new_pos@.len() >= old(self)@.vertices.len(),
        ensures
            final(self)@ == old(self)@.with_vertices(
                with_positions(old(self)@.vertices, new_pos@),
            ),
            old(self).wf() ==> final(self).wf(),
    {
        let n = self.vertices.len();
        let mut i: usize = 0;
        while i < n
            invariant
                i <= n,
                n == self.vertices@.len(),
                n == old(self).vertices@.len(),
                new_pos@.len() >= n,
                *self == (Entity { vertices: self.vertices, ..*old(self) }),
                forall|k: int|
                    0 <= k < i ==> self.vertices@[k] == (Vertex {
                        position: new_pos@[k],
                        uv: old(self).vertices@[k].uv,
                    }),
                forall|k: int| i <= k < n ==> self.vertices@[k] == old(self).vertices@[k],
            decreases n - i,
        {
            let mut vertex = self.vertices[i];
            vertex.update_pos(new_pos[i]);
            self.vertices[i] = vertex;
            i += 1;
        }
        assert(self.vertices@ =~= with_positions(old(self).vertices@, new_pos@));
    }

    /// Writes `new_v` over the vertices, one for one.
    pub fn update(&mut self, new_v: &[(VertexPosition, VertexUV)])
        requires
            new_v@.len() >= old(self)@.vertices.len(),
        ensures
            final(self)@ == old(self)@.with_vertices(replaced(old(self)@.vertices, new_v@)),
            old(self).wf() ==> final(self).wf(),
    {
        let n = self.vertices.len();
        let mut i: usize = 0;
        while i < n
            invariant
                i <= n,
                n == self.vertices@.len(),
                n == old(self).vertices@.len(),
                new_v@.len() >= n,
                *self == (Entity { vertices: self.vertices, ..*old(self) }),
                forall|k: int|
                    0 <= k < i ==> self.vertices@[k] == (Vertex {
                        position: new_v@[k].0,
                        uv: new_v@[k].1,
                    }),
            decreases n - i,
        {
            let mut vertex = self.vertices[i];
            vertex.update_pos(new_v[i].0);
            vertex.update_uv(new_v[i].1);
            self.vertices[i] = vertex;
            i += 1;
        }
        assert(self.vertices@ =~= replaced(old(self).vertices@, new_v@));
    }

    /// Shows another texture, of the size `tex_size`.
    pub fn update_tex(&mut self, tex_size: [u32; 2])
        ensures
            final(self)@ == (EntityView { tex_size, ..old(self)@ }),
    {
        self.tex_size = tex_size;
    }

    /// Writes into `iface` what the shaders read when the entity is drawn
    /// on a surface of `size` pixels. The entity stays as it is.
    pub fn render(&self, iface: &mut HudUniformInterface, size: &[u32; 2])
        ensures
            *final(iface) == self@.uniforms(*old(iface), *size),
    {
        iface.size = *size;
        iface.pos = self.pos;
        iface.depth = self.depth;
        iface.scale = self.scale;
        iface.tex_size = self.tex_size;
    }
}

/// The vertices of the quad that shows a whole texture of `size` texels,
/// with the texture coordinates `uvs` at its corners.
pub fn text_quad_vertices(size: [u32; 2], uvs: [[u32; 2]; 4]) -> (quad: [Vertex; 4])
    ensures
        quad@ == text_quad(size, uvs),
{
    let right = #[verifier::truncate] (size[0] as i32);
    let top = #[verifier::truncate] (size[1] as i32);
    let quad = [
        Vertex::new(VertexPosition::new([0, 0]), VertexUV::new(uvs[0])),
        Vertex::new(VertexPosition::new([right, 0]), VertexUV::new(uvs[1])),
        Vertex::new(VertexPosition::new([right, top]), VertexUV::new(uvs[2])),
        Vertex::new(VertexPosition::new([0, top]), VertexUV::new(uvs[3])),
    ];
    assert(quad@ =~= text_quad(size, uvs));
    quad
}

/// Setting a state twice is setting it once.
pub proof fn lemma_set_state_idempotent(entity: EntityView, id: Seq<char>)
    ensures
        entity.set_state(id).set_state(id) == entity.set_state(id),
{
    if entity.has_state(id) {
        let once = with_uvs(entity.vertices, entity.state(id));
        assert(with_uvs(once, entity.state(id)) =~= once);
    }
}

/// Setting a state changes the texture coordinates of the vertices and
/// nothing else: the positions and the number of the vertices stay.
pub proof fn lemma_set_state_changes_uvs_only(entity: EntityView, id: Seq<char>)
    ensures
        entity.set_state(id) == entity.with_vertices(entity.set_state(id).vertices),
        entity.set_state(id).vertices.len() == entity.vertices.len(),
        forall|i: int|
            0 <= i < entity.vertices.len() ==> (#[trigger] entity.set_state(id).vertices[i]).position
                == entity.vertices[i].position,
        entity.has_state(id) ==> forall|i: int|
            0 <= i < entity.vertices.len() ==> (#[trigger] entity.set_state(id).vertices[i]).uv
                == entity.state(id)[i],
        !entity.has_state(id) ==> entity.set_state(id) == entity,
{
}

/// A text entity that is given new text is drawn with the size of the new
/// texture; any other entity stays as it is.
pub proof fn lemma_update_text_then_render(
    entity: EntityView,
    tex: Option<([u32; 2], [[u32; 2]; 4])>,
    iface: HudUniformInterface,
    size: [u32; 2],
)
    ensures
        entity.takes_text(tex) ==> entity.update_text(tex).uniforms(iface, size).tex_size
            == tex->Some_0.0,
        !entity.takes_text(tex) ==> entity.update_text(tex) == entity,
        entity.kind == EntityKind::Regular ==> entity.update_text(tex) == entity,
{
}

} // verus!
