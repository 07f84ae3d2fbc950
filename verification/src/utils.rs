//! Colours, texels and the paths of assets.

use vstd::prelude::*;

verus! {

/// A colour of four eight-bit channels: red, green, blue and alpha.
#[derive(Clone, Copy, Debug, PartialEq, Eq, Structural)]
pub struct RgbaColor {
    pub r: u8,
    pub g: u8,
    pub b: u8,
    pub a: u8,
}

impl RgbaColor {
    /// The colour with the given channels.
    pub fn new(r: u8, g: u8, b: u8, a: u8) -> (color: Self)
        ensures
            color == (RgbaColor { r, g, b, a }),
    {
        Self { r, g, b, a }
    }

    /// The channels in the order red, green, blue, alpha.
    pub open spec fn channels(self) -> Seq<u8> {
        seq![self.r, self.g, self.b, self.a]
    }

    /// The channels as an array, in the order red, green, blue, alpha.
    pub fn array(&self) -> (channels: [u8; 4])
        ensures
            channels@ == self.channels(),
    {
        let channels = [self.r, self.g, self.b, self.a];
        assert(channels@ =~= self.channels());
        channels
    }

    /// Opaque white, the colour a font starts with.
    pub open spec fn white() -> Self {
        RgbaColor { r: 255, g: 255, b: 255, a: 255 }
    }
}

/// A value that can be handed on as an array.
pub trait AsArray<T> {
    /// The value as an array.
    fn as_array(&self) -> T;
}

impl AsArray<[u8; 4]> for RgbaColor {
    fn as_array(&self) -> (channels: [u8; 4])
        ensures
            channels@ == self.channels(),
    {
        self.array()
    }
}

/// Byte `k` of the texels that show the depths `depths` as greys: red,
/// green and blue are the depth of the pixel, alpha is full.
pub open spec fn grey_texel(depths: Seq<u8>, k: int) -> u8 {
    if k % 4 == 3 {
        255
    } else {
        depths[k / 4]
    }
}

/// The texels that show a depth map as greys, four bytes for each pixel.
pub open spec fn grey_texels(depths: Seq<u8>) -> Seq<u8> {
    Seq::new(4 * depths.len(), |k: int| grey_texel(depths, k))
}

/// The texels of a colour texture that shows a depth map: each pixel is
/// the grey of its depth, given here as one byte, and opaque.
pub fn depth_texture_to_color(depths: &[u8]) -> (texels: Vec<u8>)
    ensures
        texels@ == grey_texels(depths@),
{
    let mut texels: Vec<u8> = Vec::new();
    let mut i: usize = 0;
    while i < depths.len()
        invariant
            i <= depths@.len(),
            texels@.len() == 4 * i,
            forall|k: int| 0 <= k < texels@.len() ==> texels@[k] == grey_texel(depths@, k),
        decreases depths@.len() - i,
    {
        let val = depths[i];
        texels.push(val);
        texels.push(val);
        texels.push(val);
        texels.push(255);
        i += 1;
    }
    assert(texels@ =~= grey_texels(depths@));
    texels
}

/// The parts joined by `/`: the path of a file inside an archive.
pub open spec fn zip_path(parts: Seq<Seq<char>>) -> Seq<char>
    decreases parts.len(),
{
    if parts.len() == 0 {
        Seq::empty()
    } else if parts.len() == 1 {
        parts[0]
    } else {
        zip_path(parts.drop_last()) + seq!['/'] + parts.last()
    }
}

/// The path of a file inside an archive, from the parts of its path: an
/// archive separates them by `/` on every system.
pub fn path_buf_as_zip_path(parts: &Vec<String>) -> (path: String)
    ensures
        path@ == zip_path(parts.deep_view()),
{
    let ghost all = parts.deep_view();
    let mut path = String::new();
    let mut i: usize = 0;
    while i < parts.len()
        invariant
            i <= parts@.len(),
            all == parts.deep_view(),
            all.len() == parts@.len(),
            path@ == zip_path(all.take(i as int)),
        decreases parts@.len() - i,
    {
        proof {
            reveal_strlit("/");
            assert("/"@ =~= seq!['/']);
            assert(all.take(i + 1).drop_last() =~= all.take(i as int));
            assert(all.take(i + 1).last() == parts@[i as int]@);
        }
        if i > 0 {
            path.append("/");
        }
        path.append(parts[i].as_str());
        proof {
            if i == 0 {
                assert(path@ =~= parts@[0]@);
            }
        }
        i += 1;
    }
    assert(all.take(i as int) =~= all);
    path
}

} // verus!
