use scene_engine::utils::{depth_texture_to_color, path_buf_as_zip_path, AsArray};
use scene_engine::RgbaColor;

#[test]
fn colour_keeps_its_channels() {
    let color = RgbaColor::new(1, 2, 3, 4);
    assert_eq!(color.r, 1);
    assert_eq!(color.g, 2);
    assert_eq!(color.b, 3);
    assert_eq!(color.a, 4);
    assert_eq!(color.array(), [1, 2, 3, 4]);
    assert_eq!(color.as_array(), [1, 2, 3, 4]);
    assert_eq!(RgbaColor::new(255, 0, 255, 0).array(), [255, 0, 255, 0]);
}

#[test]
fn depth_map_becomes_opaque_greys() {
    assert_eq!(
        depth_texture_to_color(&[0, 1, 200, 255]),
        vec![0, 0, 0, 255, 1, 1, 1, 255, 200, 200, 200, 255, 255, 255, 255, 255]
    );
    assert!(depth_texture_to_color(&[]).is_empty());
}

#[test]
fn zip_path_joins_with_slashes() {
    let parts = vec!["assets".to_string(), "fonts".to_string(), "Roboto-Black.ttf".to_string()];
    assert_eq!(path_buf_as_zip_path(&parts), "assets/fonts/Roboto-Black.ttf");
    assert_eq!(path_buf_as_zip_path(&vec!["assets".to_string()]), "assets");
    assert_eq!(path_buf_as_zip_path(&vec![]), "");
    assert_eq!(
        path_buf_as_zip_path(&vec!["".to_string(), "a".to_string()]),
        "/a"
    );
}
