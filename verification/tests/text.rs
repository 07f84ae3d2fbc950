use scene_engine::single::Single;
use scene_engine::text::{tex_from_string, Font, FontStyle, FontWeight};
use scene_engine::RgbaColor;

fn size_of(x: f32) -> Single {
    Single::from_bits(x.to_bits())
}

#[test]
fn font_file_is_named_by_family_weight_and_style() {
    let font = Font::new("Roboto", FontWeight::Black, FontStyle::Regular, size_of(20.0));
    assert_eq!(font.name(), "Roboto-Black.ttf");
    let font = Font::new("Roboto", FontWeight::Regular, FontStyle::Regular, size_of(20.0));
    assert_eq!(font.name(), "Roboto-Regular.ttf");
    let font = Font::new("Roboto", FontWeight::Bold, FontStyle::Italic, size_of(20.0));
    assert_eq!(font.name(), "Roboto-BoldItalic.ttf");
    let font = Font::new("Open Sans", FontWeight::Thin, FontStyle::Italic, size_of(8.0));
    assert_eq!(font.name(), "Open Sans-ThinItalic.ttf");
    let font = Font::new("", FontWeight::Medium, FontStyle::Regular, size_of(8.0));
    assert_eq!(font.name(), "-Medium.ttf");
    let font = Font::new("X", FontWeight::Light, FontStyle::Regular, size_of(8.0));
    assert_eq!(font.name(), "X-Light.ttf");
}

#[test]
fn new_font_is_white_and_keeps_its_size() {
    let font = Font::new("Roboto", FontWeight::Black, FontStyle::Regular, size_of(20.0));
    assert_eq!(font.color(), RgbaColor::new(255, 255, 255, 255));
    assert_eq!(font.size().to_bits(), 20.0f32.to_bits());
}

#[test]
fn set_color_changes_the_colour_alone() {
    let mut font = Font::new("Roboto", FontWeight::Black, FontStyle::Regular, size_of(20.0));
    font.set_color(RgbaColor::new(255, 0, 0, 170));
    assert_eq!(font.color(), RgbaColor::new(255, 0, 0, 170));
    assert_eq!(font.name(), "Roboto-Black.ttf");
    assert_eq!(font.size().to_bits(), 20.0f32.to_bits());
}

#[test]
fn texels_take_the_colour_of_the_font_and_the_alpha_of_the_pixel() {
    let mut font = Font::new("Roboto", FontWeight::Black, FontStyle::Regular, size_of(2.0));
    font.set_color(RgbaColor::new(10, 20, 30, 255));
    let alpha = vec![vec![0, 128, 255], vec![1, 2, 3]];
    let (texture, uvs) = tex_from_string(Some(&alpha), &font).unwrap();
    assert_eq!(texture.width, 3);
    assert_eq!(texture.height, 2);
    assert_eq!(
        texture.texels,
        vec![
            10, 20, 30, 0, 10, 20, 30, 128, 10, 20, 30, 255, // first row
            10, 20, 30, 1, 10, 20, 30, 2, 10, 20, 30, 3, // second row
        ]
    );
    assert_eq!(uvs, [[0, 2], [3, 2], [3, 0], [0, 0]]);
}

#[test]
fn text_without_a_font_has_no_texture() {
    let font = Font::new("Roboto", FontWeight::Black, FontStyle::Regular, size_of(2.0));
    assert!(tex_from_string(None, &font).is_none());
}

#[test]
fn empty_text_has_a_texture_without_texels() {
    let font = Font::new("Roboto", FontWeight::Black, FontStyle::Regular, size_of(3.0));
    let alpha: Vec<Vec<u8>> = vec![vec![], vec![], vec![]];
    let (texture, uvs) = tex_from_string(Some(&alpha), &font).unwrap();
    assert_eq!(texture.width, 0);
    assert_eq!(texture.height, 3);
    assert!(texture.texels.is_empty());
    assert_eq!(uvs, [[0, 3], [0, 3], [0, 0], [0, 0]]);
}

#[test]
fn one_pixel_is_four_bytes() {
    let font = Font::new("Roboto", FontWeight::Black, FontStyle::Regular, size_of(1.0));
    let alpha = vec![vec![77]];
    let (texture, uvs) = tex_from_string(Some(&alpha), &font).unwrap();
    assert_eq!(texture.texels, vec![255, 255, 255, 77]);
    assert_eq!(uvs, [[0, 1], [1, 1], [1, 0], [0, 0]]);
}
