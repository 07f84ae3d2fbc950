//! The description of a texture with named states: the image it is cut
//! from, and for each state the texture coordinates of the vertices.

use vstd::prelude::*;
use crate::names::NameTable;

verus! {

/// A texture and its states. Each state gives one pair of texture
/// coordinates for each vertex of the quad that shows the texture.
pub struct TextureData {
    /// The path of the image, below the directory of the textures.
    pub file: String,
    /// The name of the state that a new entity starts in.
    pub default_uv: String,
    /// The texture coordinates of each state.
    pub uv: NameTable<Vec<(u32, u32)>>,
}

impl TextureData {
    /// Whether the description serves a quad of `n` vertices: no state is
    /// named twice, the default state is among the states, and each state
    /// has coordinates for `n` vertices at least.
    pub open spec fn spec_covers(&self, n: nat) -> bool {
        &&& self.uv.wf()
        &&& self.uv.has(self.default_uv@)
        &&& forall|i: int|
            0 <= i < self.uv.values().len() ==> (#[trigger] self.uv.values()[i])@.len() >= n
    }

    /// The description made of its three parts.
    pub fn new(file: String, default_uv: String, uv: NameTable<Vec<(u32, u32)>>) -> (data: Self)
        ensures
            data.file == file,
            data.default_uv == default_uv,
            data.uv == uv,
    {
        TextureData { file, default_uv, uv }
    }

    /// Whether the description serves a quad of `n` vertices.
    pub fn covers(&self, n: usize) -> (covered: bool)
        requires
            self.uv.wf(),
        ensures
            covered == self.spec_covers(n as nat),
    {
        if self.uv.position(self.default_uv.as_str()).is_none() {
            return false;
        }
        let count = self.uv.len();
        let mut i: usize = 0;
        while i < count
            invariant
                i <= count,
                count == self.uv.spec_len(),
                self.uv.values().len() == count,
                forall|k: int| 0 <= k < i ==> (#[trigger] self.uv.values()[k])@.len() >= n,
            decreases count - i,
        {
            if self.uv.value_at(i).len() < n {
                return false;
            }
            i += 1;
        }
        true
    }
}

} // verus!
