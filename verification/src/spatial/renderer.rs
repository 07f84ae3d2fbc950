//! The scene renderer: the terrain and a mesh, drawn in two passes.

use vstd::prelude::*;
use crate::spatial::entity::Entity;

verus! {

/// An entity of the scene.
#[derive(Clone, Copy, Debug, PartialEq, Eq, Structural)]
pub enum SceneEntity {
    Terrain,
    Mesh,
}

/// One draw in the depth pass: a mesh of an entity, under the pose of the
/// entity. The pass writes depth alone, so the material does not count.
#[derive(Clone, Copy, Debug, PartialEq, Eq, Structural)]
pub struct DepthDraw {
    pub entity: SceneEntity,
    pub mesh: usize,
}

/// One draw in the colour pass: a mesh of an entity, under the pose of the
/// entity, with its material.
#[derive(Clone, Copy, Debug, PartialEq, Eq, Structural)]
pub struct ColorDraw {
    pub entity: SceneEntity,
    pub mesh: usize,
    pub material: Option<usize>,
}

/// The draws of the depth pass over entities of these numbers of meshes:
/// the meshes of the terrain in their order, then those of the mesh.
pub open spec fn depth_draws(terrain: nat, mesh: nat) -> Seq<DepthDraw> {
    Seq::new(
        terrain + mesh,
        |i: int|
            if i < terrain {
                DepthDraw { entity: SceneEntity::Terrain, mesh: i as usize }
            } else {
                DepthDraw { entity: SceneEntity::Mesh, mesh: (i - terrain) as usize }
            },
    )
}

/// The draws of the colour pass over entities whose meshes have these
/// materials: the meshes of the terrain in their order, then those of the
/// mesh.
pub open spec fn color_draws(terrain: Seq<Option<usize>>, mesh: Seq<Option<usize>>) -> Seq<
    ColorDraw,
> {
    Seq::new(
        terrain.len() + mesh.len(),
        |i: int|
            if i < terrain.len() {
                ColorDraw { entity: SceneEntity::Terrain, mesh: i as usize, material: terrain[i] }
            } else {
                ColorDraw {
                    entity: SceneEntity::Mesh,
                    mesh: (i - terrain.len()) as usize,
                    material: mesh[i - terrain.len()],
                }
            },
    )
}

/// The scene: the terrain and a mesh.
pub struct Renderer {
    pub terrain: Entity,
    pub mesh: Entity,
}

impl Renderer {
    /// The renderer of a scene of these two entities.
    pub fn new(terrain: Entity, mesh: Entity) -> (renderer: Self)
        ensures
            renderer.terrain == terrain,
            renderer.mesh == mesh,
    {
        Renderer { terrain, mesh }
    }

    /// The draws of the depth pass, in the order in which they are issued.
    pub fn render_depth(&self) -> (draws: Vec<DepthDraw>)
        ensures
            draws@ == depth_draws(self.terrain.materials().len(), self.mesh.materials().len()),
    {
        let terrain = self.terrain.mesh_count();
        let mesh = self.mesh.mesh_count();
        let ghost expected = depth_draws(terrain as nat, mesh as nat);
        let mut draws: Vec<DepthDraw> = Vec::new();
        let mut i: usize = 0;
        while i < terrain
            invariant
                i <= terrain,
                draws@.len() == i,
                expected == depth_draws(terrain as nat, mesh as nat),
                forall|k: int| 0 <= k < i ==> draws@[k] == expected[k],
            decreases terrain - i,
        {
            draws.push(DepthDraw { entity: SceneEntity::Terrain, mesh: i });
            i += 1;
        }
        let mut j: usize = 0;
        while j < mesh
            invariant
                j <= mesh,
                draws@.len() == terrain + j,
                expected == depth_draws(terrain as nat, mesh as nat),
                forall|k: int| 0 <= k < terrain + j ==> draws@[k] == expected[k],
            decreases mesh - j,
        {
            draws.push(DepthDraw { entity: SceneEntity::Mesh, mesh: j });
            j += 1;
        }
        assert(draws@ =~= expected);
        draws
    }

    /// The draws of the colour pass, in the order in which they are
    /// issued: the terrain first.
    pub fn render(&self) -> (draws: Vec<ColorDraw>)
        ensures
            draws@ == color_draws(self.terrain.materials(), self.mesh.materials()),
    {
        let terrain = self.terrain.render();
        let mesh = self.mesh.render();
        let ghost expected = color_draws(terrain@, mesh@);
        let mut draws: Vec<ColorDraw> = Vec::new();
        let mut i: usize = 0;
        while i < terrain.len()
            invariant
                i <= terrain@.len(),
                draws@.len() == i,
                expected == color_draws(terrain@, mesh@),
                forall|k: int| 0 <= k < i ==> draws@[k] == expected[k],
            decreases terrain@.len() - i,
        {
            draws.push(ColorDraw { entity: SceneEntity::Terrain, mesh: i, material: terrain[i] });
            i += 1;
        }
        let mut j: usize = 0;
        while j < mesh.len()
            invariant
                j <= mesh@.len(),
                draws@.len() == terrain@.len() + j,
                expected == color_draws(terrain@, mesh@),
                forall|k: int| 0 <= k < terrain@.len() + j ==> draws@[k] == expected[k],
            decreases mesh@.len() - j,
        {
            draws.push(ColorDraw { entity: SceneEntity::Mesh, mesh: j, material: mesh[j] });
            j += 1;
        }
        assert(draws@ =~= expected);
        draws
    }
}

} // verus!
