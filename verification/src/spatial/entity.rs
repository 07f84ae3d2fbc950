//! The spatial entity: the meshes of a model and where they stand in the
//! world.

use vstd::prelude::*;
use crate::single::Single;
use crate::spatial::obj::Obj;

verus! {

/// Where an entity stands: its position, its rotation about each axis, in
/// radians, and its scale.
#[derive(Clone, Copy, Debug, PartialEq, Eq)]
pub struct Pose {
    pub pos: [Single; 3],
    pub rot_x: Single,
    pub rot_y: Single,
    pub rot_z: Single,
    pub scale: Single,
}

/// The pose of a new entity: at the origin, not rotated, of scale one.
pub open spec fn rest_pose() -> Pose {
    Pose {
        pos: [Single::spec_zero(), Single::spec_zero(), Single::spec_zero()],
        rot_x: Single::spec_zero(),
        rot_y: Single::spec_zero(),
        rot_z: Single::spec_zero(),
        scale: Single::spec_one(),
    }
}

/// The materials of the meshes of a model, one for one.
pub open spec fn materials_of(obj: Obj) -> Seq<Option<usize>> {
    Seq::new(obj.geometries@.len(), |i: int| obj.geometries@[i].material)
}

/// An entity: for each of its meshes the place of its material, and a
/// pose. The meshes are drawn in their order.
pub struct Entity {
    tess: Vec<Option<usize>>,
    pose: Pose,
}

impl Entity {
    /// The materials of the meshes, in the order in which they are drawn.
    pub closed spec fn materials(&self) -> Seq<Option<usize>> {
        self.tess@
    }

    /// The pose.
    pub closed spec fn spec_pose(&self) -> Pose {
        self.pose
    }

    /// The entity of the meshes of `obj`, at rest.
    pub fn new(obj: &Obj) -> (entity: Self)
        ensures
            entity.materials() == materials_of(*obj),
            entity.spec_pose() == rest_pose(),
    {
        let mut tess: Vec<Option<usize>> = Vec::new();
        let mut i: usize = 0;
        while i < obj.geometries.len()
            invariant
                i <= obj.geometries@.len(),
                tess@.len() == i,
                forall|k: int| 0 <= k < i ==> tess@[k] == obj.geometries@[k].material,
            decreases obj.geometries@.len() - i,
        {
            tess.push(obj.geometries[i].material);
            i += 1;
        }
        assert(tess@ =~= materials_of(*obj));
        Entity {
            tess,
            pose: Pose {
                pos: [Single::zero(), Single::zero(), Single::zero()],
                rot_x: Single::zero(),
                rot_y: Single::zero(),
                rot_z: Single::zero(),
                scale: Single::one(),
            },
        }
    }

    /// The pose.
    #[verifier::when_used_as_spec(spec_pose)]
    pub fn pose(&self) -> (pose: Pose)
        ensures
            pose == self.spec_pose(),
    {
        self.pose
    }

    /// Moves the entity to `pos`.
    pub fn set_position(&mut self, pos: [Single; 3])
        ensures
            final(self).spec_pose() == (Pose { pos, ..old(self).spec_pose() }),
            final(self).materials() == old(self).materials(),
    {
        self.pose.pos = pos;
    }

    /// Turns the entity to the given angles about x, y and z.
    pub fn set_rotation(&mut self, rot_x: Single, rot_y: Single, rot_z: Single)
        ensures
            final(self).spec_pose() == (Pose { rot_x, rot_y, rot_z, ..old(self).spec_pose() }),
            final(self).materials() == old(self).materials(),
    {
        self.pose.rot_x = rot_x;
        self.pose.rot_y = rot_y;
        self.pose.rot_z = rot_z;
    }

    /// Scales the entity by `scale`.
    pub fn set_scale(&mut self, scale: Single)
        ensures
            final(self).spec_pose() == (Pose { scale, ..old(self).spec_pose() }),
            final(self).materials() == old(self).materials(),
    {
        self.pose.scale = scale;
    }

    /// The number of meshes.
    pub fn mesh_count(&self) -> (count: usize)
        ensures
            count == self.materials().len(),
    {
        self.tess.len()
    }

    /// The material of each mesh in the order in which the meshes are
    /// drawn: that in which the model gave them.
    pub fn render(&self) -> (materials: &Vec<Option<usize>>)
        ensures
            materials@ == self.materials(),
    {
        &self.tess
    }
}

} // verus!
