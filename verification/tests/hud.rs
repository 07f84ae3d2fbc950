use scene_engine::hud::entity::text_quad_vertices;
use scene_engine::hud::renderer::{sort_by_depth, Blending, DrawCall, DrawTarget, Equation, Factor};
use scene_engine::hud::{
    DepthEntity, Entity, EntityKind, HudUniformInterface, Renderer, Vertex, VertexPosition,
    VertexUV,
};
use scene_engine::names::NameTable;
use scene_engine::single::Single;
use scene_engine::texture::TextureData;
use scene_engine::EntityRegistry;

fn depth_of(x: f32) -> Single {
    Single::from_bits(x.to_bits())
}

fn quad_positions() -> [VertexPosition; 4] {
    [
        VertexPosition::new([0, 0]),
        VertexPosition::new([100, 0]),
        VertexPosition::new([100, 200]),
        VertexPosition::new([0, 200]),
    ]
}

fn two_state_texture() -> TextureData {
    let mut uv = NameTable::new();
    uv.insert("idle", vec![(0, 0), (16, 0), (16, 32), (0, 32)]);
    uv.insert("walk", vec![(16, 0), (32, 0), (32, 32), (16, 32)]);
    TextureData::new("player.png".to_string(), "idle".to_string(), uv)
}

fn two_state_entity() -> Entity {
    let data = two_state_texture();
    assert!(data.covers(4));
    Entity::new_with_texture_data(&quad_positions(), &[0, 1, 2, 0, 2, 3], &data, [64, 32])
}

fn uvs_of_entity(entity: &Entity) -> Vec<[u32; 2]> {
    entity.vertices().iter().map(|v| v.get_uv().repr).collect()
}

fn positions_of_entity(entity: &Entity) -> Vec<[i32; 2]> {
    entity.vertices().iter().map(|v| v.get_pos().repr).collect()
}

fn entity_at_depth(depth: f32) -> Entity {
    let mut entity = Entity::new_entity_from_string(Some((
        [8, 8],
        [[0, 8], [8, 8], [8, 0], [0, 0]],
    )))
    .unwrap();
    entity.set_depth(depth_of(depth));
    entity
}

fn drawn_depths(calls: &[DrawCall]) -> Vec<f32> {
    calls
        .iter()
        .map(|call| f32::from_bits(call.uniforms.depth.to_bits()))
        .collect()
}

#[test]
fn vertex_keeps_what_it_is_given() {
    let mut vertex = Vertex::new(VertexPosition::new([3, -4]), VertexUV::new([5, 6]));
    assert_eq!(vertex.get_pos().repr, [3, -4]);
    assert_eq!(vertex.get_uv().repr, [5, 6]);
    vertex.update_uv(VertexUV::new([7, 8]));
    assert_eq!(vertex.get_pos().repr, [3, -4]);
    assert_eq!(vertex.get_uv().repr, [7, 8]);
    vertex.update_pos(VertexPosition::new([-1, 2]));
    assert_eq!(vertex.get_pos().repr, [-1, 2]);
    assert_eq!(vertex.get_uv().repr, [7, 8]);
}

#[test]
fn new_entity_stands_at_the_origin() {
    let vertices = [
        Vertex::new(VertexPosition::new([0, 0]), VertexUV::new([0, 0])),
        Vertex::new(VertexPosition::new([10, 0]), VertexUV::new([4, 0])),
        Vertex::new(VertexPosition::new([10, 10]), VertexUV::new([4, 4])),
    ];
    let entity = Entity::new_from_tex(&vertices, &[0, 1, 2], [4, 4]);
    assert_eq!(entity.vertices().as_slice(), &vertices);
    assert_eq!(entity.indices(), &vec![0, 1, 2]);
    assert_eq!(entity.tex_size(), [4, 4]);
    assert_eq!(entity.get_depth().to_bits(), 0.0f32.to_bits());
    assert_eq!(entity.kind(), EntityKind::Regular);
    assert!(entity.state_ids().is_empty());
    let mut iface = blank_interface();
    entity.render(&mut iface, &[800, 600]);
    assert_eq!(iface.pos, [0, 0]);
    assert_eq!(iface.scale.to_bits(), 1.0f32.to_bits());
    assert_eq!(iface.depth.to_bits(), 0.0f32.to_bits());
    assert_eq!(iface.size, [800, 600]);
    assert_eq!(iface.tex_size, [4, 4]);
}

fn blank_interface() -> HudUniformInterface {
    HudUniformInterface {
        pos: [9, 9],
        depth: depth_of(9.0),
        scale: depth_of(9.0),
        size: [9, 9],
        tex_size: [9, 9],
        depth_tex: true,
    }
}

#[test]
fn entity_without_an_image_is_not_made() {
    let vertices = [Vertex::new(VertexPosition::new([0, 0]), VertexUV::new([0, 0]))];
    assert!(Entity::new(&vertices, &[0], None).is_none());
    let entity = Entity::new(&vertices, &[0], Some([2, 3])).unwrap();
    assert_eq!(entity.tex_size(), [2, 3]);
    let same = Entity::new_from_img(&vertices, &[0], [2, 3]);
    assert_eq!(same.tex_size(), [2, 3]);
    assert_eq!(same.vertices(), entity.vertices());
}

#[test]
fn setters_change_what_is_drawn() {
    let mut entity = two_state_entity();
    entity.set_pos([100, -100]);
    entity.set_scale(depth_of(2.5));
    entity.set_depth(depth_of(-1.0));
    assert_eq!(entity.get_depth().to_bits(), (-1.0f32).to_bits());
    let mut iface = blank_interface();
    entity.render(&mut iface, &[1000, 1000]);
    assert_eq!(iface.pos, [100, -100]);
    assert_eq!(iface.scale.to_bits(), 2.5f32.to_bits());
    assert_eq!(iface.depth.to_bits(), (-1.0f32).to_bits());
    assert_eq!(iface.size, [1000, 1000]);
    assert_eq!(iface.tex_size, [64, 32]);
    // What kind of texture is bound is the renderer's to say.
    assert!(iface.depth_tex);
}

#[test]
fn entity_with_texture_data_starts_in_the_default_state() {
    let entity = two_state_entity();
    assert_eq!(
        positions_of_entity(&entity),
        vec![[0, 0], [100, 0], [100, 200], [0, 200]]
    );
    assert_eq!(
        uvs_of_entity(&entity),
        vec![[0, 0], [16, 0], [16, 32], [0, 32]]
    );
    assert_eq!(entity.indices(), &vec![0, 1, 2, 0, 2, 3]);
    assert_eq!(entity.tex_size(), [64, 32]);
    let ids: Vec<String> = entity.state_ids().into_iter().cloned().collect();
    assert_eq!(ids, vec!["idle".to_string(), "walk".to_string()]);
}

#[test]
fn load_needs_the_texture_data() {
    let data = two_state_texture();
    let loaded = Entity::load(&quad_positions(), &[0, 1, 2, 0, 2, 3], Some(&data), [64, 32]);
    assert_eq!(
        uvs_of_entity(&loaded.unwrap()),
        vec![[0, 0], [16, 0], [16, 32], [0, 32]]
    );
    assert!(Entity::load(&quad_positions(), &[0, 1, 2, 0, 2, 3], None, [64, 32]).is_none());
}

#[test]
fn texture_data_covers_only_quads_it_has_coordinates_for() {
    let data = two_state_texture();
    assert!(data.covers(0));
    assert!(data.covers(4));
    assert!(!data.covers(5));
    let mut uv = NameTable::new();
    uv.insert("idle", vec![(0u32, 0u32); 4]);
    let without_default = TextureData::new("a.png".to_string(), "missing".to_string(), uv);
    assert!(!without_default.covers(4));
    let mut uv = NameTable::new();
    uv.insert("idle", vec![(0u32, 0u32); 4]);
    uv.insert("short", vec![(0u32, 0u32); 3]);
    let with_short_state = TextureData::new("a.png".to_string(), "idle".to_string(), uv);
    assert!(!with_short_state.covers(4));
    assert!(with_short_state.covers(3));
}

#[test]
fn set_state_missing_fails_and_leaves_the_quad() {
    let mut entity = two_state_entity();
    let before = entity.vertices().clone();
    assert_eq!(entity.set_state("missing"), Err(()));
    assert_eq!(entity.vertices(), &before);
    assert_eq!(entity.set_state(""), Err(()));
    assert_eq!(entity.vertices(), &before);
}

#[test]
fn set_state_writes_the_coordinates_of_the_state() {
    let mut entity = two_state_entity();
    assert_eq!(entity.set_state("walk"), Ok(()));
    assert_eq!(
        uvs_of_entity(&entity),
        vec![[16, 0], [32, 0], [32, 32], [16, 32]]
    );
    assert_eq!(
        positions_of_entity(&entity),
        vec![[0, 0], [100, 0], [100, 200], [0, 200]]
    );
    assert_eq!(entity.set_state("idle"), Ok(()));
    assert_eq!(
        uvs_of_entity(&entity),
        vec![[0, 0], [16, 0], [16, 32], [0, 32]]
    );
}

#[test]
fn set_state_twice_is_set_state_once() {
    let mut entity = two_state_entity();
    assert_eq!(entity.set_state("walk"), Ok(()));
    let once = entity.vertices().clone();
    assert_eq!(entity.set_state("walk"), Ok(()));
    assert_eq!(entity.vertices(), &once);
}

#[test]
fn set_state_on_an_entity_without_states_fails() {
    let mut entity = entity_at_depth(0.0);
    let before = entity.vertices().clone();
    assert_eq!(entity.set_state("idle"), Err(()));
    assert_eq!(entity.vertices(), &before);
}

#[test]
fn update_uv_and_update_pos_write_one_for_one() {
    let mut entity = two_state_entity();
    entity.update_uv(&[
        VertexUV::new([1, 2]),
        VertexUV::new([3, 4]),
        VertexUV::new([5, 6]),
        VertexUV::new([7, 8]),
        VertexUV::new([9, 9]),
    ]);
    assert_eq!(uvs_of_entity(&entity), vec![[1, 2], [3, 4], [5, 6], [7, 8]]);
    assert_eq!(
        positions_of_entity(&entity),
        vec![[0, 0], [100, 0], [100, 200], [0, 200]]
    );
    entity.update_pos(&[
        VertexPosition::new([-1, -1]),
        VertexPosition::new([1, -1]),
        VertexPosition::new([1, 1]),
        VertexPosition::new([-1, 1]),
    ]);
    assert_eq!(
        positions_of_entity(&entity),
        vec![[-1, -1], [1, -1], [1, 1], [-1, 1]]
    );
    assert_eq!(uvs_of_entity(&entity), vec![[1, 2], [3, 4], [5, 6], [7, 8]]);
    entity.update(&[
        (VertexPosition::new([0, 0]), VertexUV::new([0, 1])),
        (VertexPosition::new([2, 0]), VertexUV::new([1, 1])),
        (VertexPosition::new([2, 2]), VertexUV::new([1, 0])),
        (VertexPosition::new([0, 2]), VertexUV::new([0, 0])),
    ]);
    assert_eq!(
        positions_of_entity(&entity),
        vec![[0, 0], [2, 0], [2, 2], [0, 2]]
    );
    assert_eq!(uvs_of_entity(&entity), vec![[0, 1], [1, 1], [1, 0], [0, 0]]);
}

#[test]
fn text_entity_is_the_quad_over_its_texture() {
    let uvs = [[0, 20], [120, 20], [120, 0], [0, 0]];
    let entity = Entity::new_entity_from_string(Some(([120, 20], uvs))).unwrap();
    assert_eq!(entity.kind(), EntityKind::Text);
    assert_eq!(entity.tex_size(), [120, 20]);
    assert_eq!(entity.indices(), &vec![0, 1, 2, 0, 2, 3]);
    assert_eq!(
        positions_of_entity(&entity),
        vec![[0, 0], [120, 0], [120, 20], [0, 20]]
    );
    assert_eq!(uvs_of_entity(&entity), uvs.to_vec());
    assert!(Entity::new_entity_from_string(None).is_none());
}

#[test]
fn text_quad_of_an_empty_text_has_no_width() {
    let quad = text_quad_vertices([0, 20], [[0, 20], [0, 20], [0, 0], [0, 0]]);
    let positions: Vec<[i32; 2]> = quad.iter().map(|v| v.get_pos().repr).collect();
    assert_eq!(positions, vec![[0, 0], [0, 0], [0, 20], [0, 20]]);
}

#[test]
fn update_text_shows_in_the_size_that_is_drawn() {
    let mut entity = entity_at_depth(0.0);
    let uvs = [[0, 24], [300, 24], [300, 0], [0, 0]];
    assert_eq!(entity.update_text(Some(([300, 24], uvs))), Ok(()));
    let mut iface = blank_interface();
    entity.render(&mut iface, &[1000, 1000]);
    assert_eq!(iface.tex_size, [300, 24]);
    assert_eq!(entity.tex_size(), [300, 24]);
    assert_eq!(
        positions_of_entity(&entity),
        vec![[0, 0], [300, 0], [300, 24], [0, 24]]
    );
    assert_eq!(uvs_of_entity(&entity), uvs.to_vec());
}

#[test]
fn update_text_on_a_regular_entity_fails_and_changes_nothing() {
    let mut entity = two_state_entity();
    let before = entity.vertices().clone();
    let uvs = [[0, 24], [300, 24], [300, 0], [0, 0]];
    assert_eq!(entity.update_text(Some(([300, 24], uvs))), Err(()));
    assert_eq!(entity.vertices(), &before);
    assert_eq!(entity.tex_size(), [64, 32]);
    assert_eq!(entity.kind(), EntityKind::Regular);
}

#[test]
fn update_text_that_could_not_be_drawn_fails_and_changes_nothing() {
    let mut entity = entity_at_depth(0.0);
    let before = entity.vertices().clone();
    assert_eq!(entity.update_text(None), Err(()));
    assert_eq!(entity.vertices(), &before);
    assert_eq!(entity.tex_size(), [8, 8]);
}

#[test]
fn update_tex_takes_the_new_size() {
    let mut entity = two_state_entity();
    entity.update_tex([128, 256]);
    assert_eq!(entity.tex_size(), [128, 256]);
    assert_eq!(
        uvs_of_entity(&entity),
        vec![[0, 0], [16, 0], [16, 32], [0, 32]]
    );
}

#[test]
fn sort_puts_greater_depths_first() {
    let depths: Vec<Single> = [3.0, 1.0, 2.0].iter().map(|d| depth_of(*d)).collect();
    assert_eq!(sort_by_depth(&depths), vec![0, 2, 1]);
    let depths: Vec<Single> = [1.0, 2.0, 3.0, 4.0].iter().map(|d| depth_of(*d)).collect();
    assert_eq!(sort_by_depth(&depths), vec![3, 2, 1, 0]);
    let depths: Vec<Single> = [-1.0, 0.0, -2.0, 5.5].iter().map(|d| depth_of(*d)).collect();
    assert_eq!(sort_by_depth(&depths), vec![3, 1, 0, 2]);
    assert_eq!(sort_by_depth(&[]), Vec::<usize>::new());
}

#[test]
fn sort_keeps_equal_depths_in_their_order() {
    let depths: Vec<Single> = [1.0, 2.0, 1.0, 2.0, 1.0]
        .iter()
        .map(|d| depth_of(*d))
        .collect();
    assert_eq!(sort_by_depth(&depths), vec![1, 3, 0, 2, 4]);
    let zeros = [depth_of(0.0), depth_of(-0.0), depth_of(0.0)];
    assert_eq!(sort_by_depth(&zeros), vec![0, 1, 2]);
}

#[test]
fn sort_does_not_move_a_depth_that_cannot_be_ordered() {
    let depths = [depth_of(1.0), depth_of(f32::NAN), depth_of(3.0)];
    assert_eq!(sort_by_depth(&depths), vec![0, 1, 2]);
    let depths = [depth_of(f32::NAN), depth_of(1.0), depth_of(3.0)];
    assert_eq!(sort_by_depth(&depths), vec![0, 2, 1]);
    let depths = [depth_of(f32::NAN), depth_of(f32::NAN)];
    assert_eq!(sort_by_depth(&depths), vec![0, 1]);
}

#[test]
fn sort_agrees_with_a_stable_sort_of_the_machine() {
    let numbers: Vec<f32> = (0..40).map(|i| ((i * 37) % 11) as f32 - 5.0).collect();
    let depths: Vec<Single> = numbers.iter().map(|d| depth_of(*d)).collect();
    let mut expected: Vec<usize> = (0..numbers.len()).collect();
    expected.sort_by(|a, b| numbers[*b].partial_cmp(&numbers[*a]).unwrap());
    assert_eq!(sort_by_depth(&depths), expected);
}

#[test]
fn renderer_draws_depths_three_one_two_as_three_two_one() {
    let mut registry = EntityRegistry::new();
    registry.register("a", entity_at_depth(3.0));
    registry.register("b", entity_at_depth(1.0));
    registry.register("c", entity_at_depth(2.0));
    let calls = Renderer::new().render(&registry, &[640, 480], None);
    assert_eq!(drawn_depths(&calls), vec![3.0, 2.0, 1.0]);
    let targets: Vec<DrawTarget> = calls.iter().map(|call| call.target).collect();
    assert_eq!(
        targets,
        vec![
            DrawTarget::Entity(0),
            DrawTarget::Entity(2),
            DrawTarget::Entity(1)
        ]
    );
    for call in calls {
        assert!(!call.uniforms.depth_tex);
        assert_eq!(call.uniforms.size, [640, 480]);
        assert_eq!(call.uniforms.tex_size, [8, 8]);
    }
}

#[test]
fn renderer_draws_the_depth_map_under_everything() {
    let mut registry = EntityRegistry::new();
    registry.register("text", entity_at_depth(-1.0));
    registry.register("player", entity_at_depth(100.0));
    let quad = [
        Vertex::new(VertexPosition::new([0, 0]), VertexUV::new([0, 0])),
        Vertex::new(VertexPosition::new([500, 0]), VertexUV::new([1024, 0])),
        Vertex::new(VertexPosition::new([0, 500]), VertexUV::new([0, 1024])),
        Vertex::new(VertexPosition::new([500, 500]), VertexUV::new([1024, 1024])),
    ];
    let depth_entity = DepthEntity::new(&quad, &[0, 1, 2, 1, 2, 3], [1000, 1000]);
    assert_eq!(depth_entity.get_depth().to_bits(), 0.0f32.to_bits());
    assert_eq!(depth_entity.vertices().as_slice(), &quad);
    assert_eq!(depth_entity.indices(), &vec![0, 1, 2, 1, 2, 3]);
    let calls = Renderer::new().render(&registry, &[640, 480], Some(&depth_entity));
    assert_eq!(calls.len(), 3);
    assert_eq!(calls[0].target, DrawTarget::DepthMap);
    assert!(calls[0].uniforms.depth_tex);
    assert_eq!(calls[0].uniforms.tex_size, [1000, 1000]);
    assert_eq!(calls[0].uniforms.size, [640, 480]);
    assert_eq!(calls[0].uniforms.pos, [0, 0]);
    assert_eq!(calls[0].uniforms.scale.to_bits(), 1.0f32.to_bits());
    assert_eq!(calls[1].target, DrawTarget::Entity(1));
    assert!(!calls[1].uniforms.depth_tex);
    assert_eq!(calls[2].target, DrawTarget::Entity(0));
    assert!(!calls[2].uniforms.depth_tex);
}

#[test]
fn renderer_of_an_empty_registry_draws_nothing() {
    let registry: EntityRegistry<Entity> = EntityRegistry::new();
    assert!(Renderer::new().render(&registry, &[1, 1], None).is_empty());
}

#[test]
fn rendering_leaves_the_registry_as_it_is() {
    let mut registry = EntityRegistry::new();
    registry.register("a", entity_at_depth(1.0));
    registry.register("b", entity_at_depth(2.0));
    let renderer = Renderer::new();
    let first = renderer.render(&registry, &[640, 480], None);
    let second = renderer.render(&registry, &[640, 480], None);
    assert_eq!(first, second);
    let depths: Vec<f32> = registry
        .values()
        .iter()
        .map(|e| f32::from_bits(e.get_depth().to_bits()))
        .collect();
    assert_eq!(depths, vec![1.0, 2.0]);
}

#[test]
fn renderer_blends_by_the_alpha_of_what_it_draws() {
    assert_eq!(
        Renderer::new().render_state(),
        Blending {
            equation: Equation::Additive,
            src: Factor::SrcAlpha,
            dst: Factor::SrcAlphaComplement,
        }
    );
}
