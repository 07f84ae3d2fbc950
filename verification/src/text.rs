//! Fonts, and the texture of a line of text.
//!
//! The glyphs are laid out and drawn elsewhere; what comes from there is
//! the alpha of each pixel, row by row. Here the pixels take the colour of
//! the font and become the texels of a texture.

use vstd::prelude::*;
use vstd::arithmetic::div_mod::lemma_fundamental_div_mod_converse;
use crate::utils::RgbaColor;
use crate::single::Single;

verus! {

/// The weight of a font, from the heaviest to the lightest.
#[derive(Debug, Clone, Copy, PartialEq, Eq, Structural)]
pub enum FontWeight {
    Black,
    Bold,
    Regular,
    Medium,
    Light,
    Thin,
}

/// The style of a font.
#[derive(Debug, Clone, Copy, PartialEq, Eq, Structural)]
pub enum FontStyle {
    Regular,
    Italic,
}

/// The measures of a glyph, in pixels.
#[derive(Debug, Clone, Copy, PartialEq, Eq, Structural)]
pub struct GlyphMetrics {
    /// From the pen to the left edge of the glyph.
    pub start_x: i64,
    /// From the baseline to the upper edge of the glyph.
    pub start_y: i64,
    pub width: u64,
    pub height: u64,
    /// From the pen to the pen of the next glyph.
    pub advance: i64,
}

/// The name of a weight, as the files of a font family carry it.
pub open spec fn weight_name(weight: FontWeight) -> Seq<char> {
    match weight {
        FontWeight::Black => "Black"@,
        FontWeight::Bold => "Bold"@,
        FontWeight::Regular => "Regular"@,
        FontWeight::Medium => "Medium"@,
        FontWeight::Light => "Light"@,
        FontWeight::Thin => "Thin"@,
    }
}

/// The name of a style, as the files of a font family carry it: the
/// regular style has none.
pub open spec fn style_name(style: FontStyle) -> Seq<char> {
    match style {
        FontStyle::Regular => Seq::empty(),
        FontStyle::Italic => "Italic"@,
    }
}

/// The name of the file of a font: family, a hyphen, weight and style, and
/// the ending of TrueType files.
pub open spec fn font_file_name(family: Seq<char>, weight: FontWeight, style: FontStyle) -> Seq<
    char,
> {
    family + "-"@ + weight_name(weight) + style_name(style) + ".ttf"@
}

/// A font: a family in one weight and style, at a size, in a colour.
#[derive(Debug, Clone)]
pub struct Font {
    name: String,
    weight: FontWeight,
    style: FontStyle,
    size: Single,
    color: RgbaColor,
}

impl Font {
    /// The name of the family.
    pub closed spec fn family(&self) -> Seq<char> {
        self.name@
    }

    /// The weight.
    pub closed spec fn weight(&self) -> FontWeight {
        self.weight
    }

    /// The style.
    pub closed spec fn style(&self) -> FontStyle {
        self.style
    }

    /// The height of a line, in pixels.
    pub closed spec fn spec_size(&self) -> Single {
        self.size
    }

    /// The colour.
    pub closed spec fn spec_color(&self) -> RgbaColor {
        self.color
    }

    /// The font of the given family, weight, style and size, in white.
    pub fn new(name: &str, weight: FontWeight, style: FontStyle, size: Single) -> (font: Self)
        ensures
            font.family() == name@,
            font.weight() == weight,
            font.style() == style,
            font.spec_size() == size,
            font.spec_color() == RgbaColor::white(),
    {
        Self {
            name: String::from_str(name),
            weight,
            style,
            size,
            color: RgbaColor::new(255, 255, 255, 255),
        }
    }

    /// Sets the colour and keeps the rest.
    pub fn set_color(&mut self, color: RgbaColor)
        ensures
            final(self).spec_color() == color,
            final(self).family() == old(self).family(),
            final(self).weight() == old(self).weight(),
            final(self).style() == old(self).style(),
            final(self).spec_size() == old(self).spec_size(),
    {
        self.color = color
    }

    /// The colour.
    #[verifier::when_used_as_spec(spec_color)]
    pub fn color(&self) -> (color: RgbaColor)
        ensures
            color == self.spec_color(),
    {
        self.color
    }

    /// The height of a line, in pixels.
    #[verifier::when_used_as_spec(spec_size)]
    pub fn size(&self) -> (size: Single)
        ensures
            size == self.spec_size(),
    {
        self.size
    }

    /// The name of the file that holds the font.
    pub fn name(&self) -> (file: String)
        ensures
            file@ == font_file_name(self.family(), self.weight(), self.style()),
    {
        let weight = match self.weight {
            FontWeight::Black => "Black",
            FontWeight::Bold => "Bold",
            FontWeight::Regular => "Regular",
            FontWeight::Medium => "Medium",
            FontWeight::Light => "Light",
            FontWeight::Thin => "Thin",
        };
        let style = match self.style {
            FontStyle::Regular => "",
            FontStyle::Italic => "Italic",
        };
        proof {
            reveal_strlit("");
            assert(""@ =~= Seq::<char>::empty());
        }
        let mut file = self.name.clone();
        file.append("-");
        file.append(weight);
        file.append(style);
        file.append(".ttf");
        file
    }
}

/// The texture of a line of text: its size in texels and its texels, four
/// bytes each, row by row.
pub struct TextTexture {
    pub width: u32,
    pub height: u32,
    pub texels: Vec<u8>,
}

/// Byte `k` of the texels of a text in the colour `color`, `width` pixels
/// wide, whose pixels have the alpha `alpha`: red, green and blue are those
/// of the colour, alpha is that of the pixel.
pub open spec fn text_texel(alpha: Seq<Seq<u8>>, width: int, color: RgbaColor, k: int) -> u8 {
    let pixel = k / 4;
    let channel = k % 4;
    if channel == 0 {
        color.r
    } else if channel == 1 {
        color.g
    } else if channel == 2 {
        color.b
    } else {
        alpha[pixel / width][pixel % width]
    }
}

/// The texels of a text in the colour `color` whose pixels have the alpha
/// `alpha`, given row by row.
pub open spec fn text_texels(alpha: Seq<Seq<u8>>, color: RgbaColor) -> Seq<u8> {
    let width = alpha[0].len() as int;
    Seq::new(
        (alpha.len() * width * 4) as nat,
        |k: int| text_texel(alpha, width, color, k),
    )
}

/// The texture coordinates of the corners of a texture of `width` by
/// `height` texels, for a quad whose corners run from the origin along x,
/// then up, then back: the rows of the texture are turned over.
pub open spec fn corner_uvs(width: u32, height: u32) -> [[u32; 2]; 4] {
    [[0u32, height], [width, height], [width, 0u32], [0u32, 0u32]]
}

/// Whether `alpha` is the pixels of a text: at least one row, all rows of
/// one length.
pub open spec fn is_pixel_map(alpha: Seq<Seq<u8>>) -> bool {
    &&& alpha.len() > 0
    &&& forall|i: int| 0 <= i < alpha.len() ==> (#[trigger] alpha[i]).len() == alpha[0].len()
}

/// The rows of a pixel map, each as its bytes.
pub open spec fn rows_of(map: Seq<Vec<u8>>) -> Seq<Seq<u8>> {
    Seq::new(map.len(), |i: int| map[i]@)
}

/// The texture of a text in the colour of `font`, and the texture
/// coordinates of its corners. `alpha` holds the alpha of each pixel, row
/// by row, or nothing where the font could not be had; then there is no
/// texture.
pub fn tex_from_string(alpha: Option<&Vec<Vec<u8>>>, font: &Font) -> (tex: Option<
    (TextTexture, [[u32; 2]; 4]),
>)
    requires
        alpha matches Some(map) ==> {
            &&& is_pixel_map(rows_of(map@))
            &&& map@.len() <= u32::MAX
            &&& map@[0]@.len() <= u32::MAX
        },
    ensures
        tex is Some <==> alpha is Some,
        tex matches Some((texture, uvs)) ==> {
            &&& texture.height == alpha->Some_0@.len()
            &&& texture.width == alpha->Some_0@[0]@.len()
            &&& texture.texels@ == text_texels(rows_of(alpha->Some_0@), font.spec_color())
            &&& uvs == corner_uvs(texture.width, texture.height)
        },
{
    let map = match alpha {
        Some(map) => map,
        None => {
            return None;
        },
    };
    let color = font.color();
    let height = map.len();
    let width = map[0].len();
    let ghost rows = rows_of(map@);
    let mut texels: Vec<u8> = Vec::new();
    let mut i: usize = 0;
    while i < height
        invariant
            i <= height,
            height == map@.len(),
            width == map@[0]@.len(),
            rows == rows_of(map@),
            is_pixel_map(rows),
            texels@.len() == i * width * 4,
            forall|k: int|
                0 <= k < texels@.len() ==> texels@[k] == text_texel(rows, width as int, color, k),
        decreases height - i,
    {
        let row = &map[i];
        assert(row@ == rows[i as int]);
        let mut j: usize = 0;
        while j < width
            invariant
                j <= width,
                i < height,
                height == map@.len(),
                width == map@[0]@.len(),
                rows == rows_of(map@),
                row@ == rows[i as int],
                row@.len() == width,
                texels@.len() == (i * width + j) * 4,
                forall|k: int|
                    0 <= k < texels@.len() ==> texels@[k] == text_texel(
                        rows,
                        width as int,
                        color,
                        k,
                    ),
            decreases width - j,
        {
            let ghost pixel = i * width + j;
            let ghost before = texels@;
            proof {
                lemma_fundamental_div_mod_converse(pixel, width as int, i as int, j as int);
            }
            texels.push(color.r);
            texels.push(color.g);
            texels.push(color.b);
            texels.push(row[j]);
            proof {
                assert forall|k: int| 0 <= k < texels@.len() implies texels@[k] == text_texel(
                    rows,
                    width as int,
                    color,
                    k,
                ) by {
                    if k < before.len() {
                        assert(texels@[k] == before[k]);
                    } else {
                        assert(k / 4 == pixel);
                        assert(k % 4 == k - 4 * pixel);
                    }
                }
            }
            j += 1;
        }
        proof {
            assert((i + 1) * width * 4 == (i * width + width) * 4) by (nonlinear_arith);
        }
        i += 1;
    }
    proof {
        assert(texels@ =~= text_texels(rows, color));
    }
    let texture = TextTexture { width: width as u32, height: height as u32, texels };
    let uvs = [[0, height as u32], [width as u32, height as u32], [width as u32, 0], [0, 0]];
    Some((texture, uvs))
}

/// The character that shows a pixel of this alpha: full, more than a
/// hundred, or less.
pub open spec fn pixel_char(alpha: u8) -> char {
    if alpha == 255 {
        '#'
    } else if alpha > 100 {
        '*'
    } else {
        ' '
    }
}

/// The upper and the lower edge of the frame round a picture `width`
/// pixels wide.
pub open spec fn frame_edge(width: nat) -> Seq<char> {
    seq!['+'] + Seq::new(width, |i: int| '-') + seq!['+']
}

/// A row of pixels between the sides of the frame.
pub open spec fn framed_row(row: Seq<u8>) -> Seq<char> {
    seq!['|'] + Seq::new(row.len(), |i: int| pixel_char(row[i])) + seq!['|']
}

/// The picture of a pixel map in characters, line by line: the rows in a
/// frame that is as wide as the first row.
pub open spec fn map_picture(map: Seq<Seq<u8>>) -> Seq<Seq<char>> {
    Seq::new(
        map.len() + 2,
        |i: int|
            if i == 0 || i == map.len() + 1 {
                frame_edge(map[0].len())
            } else {
                framed_row(map[i - 1])
            },
    )
}

/// The edge of the frame round a picture `width` pixels wide.
fn edge_line(width: usize) -> (line: String)
    ensures
        line@ == frame_edge(width as nat),
{
    proof {
        reveal_strlit("+");
        reveal_strlit("-");
        assert("+"@ =~= seq!['+']);
        assert("-"@ =~= seq!['-']);
    }
    let mut line = String::from_str("+");
    let mut i: usize = 0;
    while i < width
        invariant
            i <= width,
            "-"@ == seq!['-'],
            line@ == seq!['+'] + Seq::new(i as nat, |k: int| '-'),
        decreases width - i,
    {
        line.append("-");
        assert(line@ =~= seq!['+'] + Seq::new((i + 1) as nat, |k: int| '-'));
        i += 1;
    }
    line.append("+");
    line
}

/// The picture of a pixel map in characters, line by line, to be written
/// out: `#` for a pixel of full alpha, `*` for one of more than a hundred,
/// a blank for any other, in a frame.
pub fn draw_map(map: &Vec<Vec<u8>>) -> (lines: Vec<String>)
    requires
        map@.len() > 0,
    ensures
        lines.deep_view() == map_picture(rows_of(map@)),
{
    proof {
        reveal_strlit("|");
        reveal_strlit("#");
        reveal_strlit("*");
        reveal_strlit(" ");
        assert("|"@ =~= seq!['|']);
        assert("#"@ =~= seq!['#']);
        assert("*"@ =~= seq!['*']);
        assert(" "@ =~= seq![' ']);
    }
    let ghost rows = rows_of(map@);
    let mut lines: Vec<String> = Vec::new();
    lines.push(edge_line(map[0].len()));
    let mut r: usize = 0;
    while r < map.len()
        invariant
            r <= map@.len(),
            map@.len() > 0,
            rows == rows_of(map@),
            "|"@ == seq!['|'],
            "#"@ == seq!['#'],
            "*"@ == seq!['*'],
            " "@ == seq![' '],
            lines@.len() == r + 1,
            lines@[0]@ == frame_edge(rows[0].len()),
            forall|k: int| 0 <= k < r ==> (#[trigger] lines@[k + 1])@ == framed_row(rows[k]),
        decreases map@.len() - r,
    {
        let row = &map[r];
        assert(row@ == rows[r as int]);
        let mut line = String::from_str("|");
        let mut c: usize = 0;
        while c < row.len()
            invariant
                c <= row@.len(),
                "#"@ == seq!['#'],
                "*"@ == seq!['*'],
                " "@ == seq![' '],
                line@ == seq!['|'] + Seq::new(c as nat, |k: int| pixel_char(row@[k])),
            decreases row@.len() - c,
        {
            let byte = row[c];
            if byte == 255 {
                line.append("#");
            } else if byte > 100 {
                line.append("*");
            } else {
                line.append(" ");
            }
            assert(line@ =~= seq!['|'] + Seq::new((c + 1) as nat, |k: int| pixel_char(row@[k])));
            c += 1;
        }
        line.append("|");
        assert(line@ =~= framed_row(rows[r as int]));
        lines.push(line);
        r += 1;
    }
    lines.push(edge_line(map[0].len()));
    proof {
        let picture = map_picture(rows);
        assert(lines.deep_view().len() == picture.len());
        assert forall|i: int| 0 <= i < picture.len() implies lines.deep_view()[i]
            == picture[i] by {
            assert(lines.deep_view()[i] == lines@[i]@);
            if 0 < i && i < map@.len() + 1 {
                assert(lines@[(i - 1) + 1]@ == framed_row(rows[i - 1]));
            }
        }
        assert(lines.deep_view() =~= picture);
    }
    lines
}

} // verus!
