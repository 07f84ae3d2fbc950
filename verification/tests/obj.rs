use scene_engine::spatial::obj::{
    holds_wide_negative, index_geometry, parse_mtl, parse_obj, pick_material, Obj, Primitive,
    VertexSource,
};
use scene_engine::spatial::{Entity, Renderer};
use scene_engine::spatial::renderer::{ColorDraw, DepthDraw, SceneEntity};
use scene_engine::single::Single;

const SQUARE: &str = "mtllib square.mtl
o Square
v 0.0 0.0 0.0
v 1.0 0.0 0.0
v 1.0 1.0 0.0
v 0.0 1.0 0.0
vn 0.0 0.0 1.0
vn 0.0 1.0 0.0
usemtl Red
f 1//1 2//1 3//1
f 1//1 3//1 4//1
usemtl Blue
f 1//2 2//2 3//2
";

const MATERIALS: &str = "newmtl Blue
Ns 10.0
Ka 1.0 1.0 1.0
Kd 0.0 0.0 1.0
Ks 0.5 0.5 0.5
d 1.0
illum 2

newmtl Red
Ns 10.0
Ka 1.0 1.0 1.0
Kd 1.0 0.0 0.0
Ks 0.5 0.5 0.5
d 1.0
illum 2

newmtl Blue
Ns 20.0
Ka 1.0 1.0 1.0
Kd 0.0 0.0 0.5
Ks 0.5 0.5 0.5
d 1.0
illum 2
";

fn corner(position: usize, normal: usize) -> (usize, Option<usize>, Option<usize>) {
    (position, None, Some(normal))
}

fn vertex(position: usize, normal: usize) -> VertexSource {
    VertexSource { position, normal }
}

#[test]
fn triangles_share_the_vertices_of_their_corners() {
    let shapes = vec![
        Primitive::Triangle(corner(0, 0), corner(1, 0), corner(2, 0)),
        Primitive::Triangle(corner(0, 0), corner(2, 0), corner(3, 0)),
    ];
    let (vertices, indices) = index_geometry(&shapes).unwrap();
    assert_eq!(
        vertices,
        vec![vertex(0, 0), vertex(1, 0), vertex(2, 0), vertex(3, 0)]
    );
    assert_eq!(indices, vec![0, 1, 2, 0, 2, 3]);
}

#[test]
fn corners_that_differ_in_the_normal_are_different_vertices() {
    let shapes = vec![
        Primitive::Triangle(corner(0, 0), corner(1, 0), corner(2, 0)),
        Primitive::Triangle(corner(0, 1), corner(1, 0), corner(2, 1)),
    ];
    let (vertices, indices) = index_geometry(&shapes).unwrap();
    assert_eq!(
        vertices,
        vec![vertex(0, 0), vertex(1, 0), vertex(2, 0), vertex(0, 1), vertex(2, 1)]
    );
    assert_eq!(indices, vec![0, 1, 2, 3, 1, 4]);
}

#[test]
fn corners_that_differ_in_the_texture_are_different_vertices() {
    let shapes = vec![Primitive::Triangle(
        (0, Some(0), Some(0)),
        (0, Some(1), Some(0)),
        (0, None, Some(0)),
    )];
    let (vertices, indices) = index_geometry(&shapes).unwrap();
    assert_eq!(vertices, vec![vertex(0, 0), vertex(0, 0), vertex(0, 0)]);
    assert_eq!(indices, vec![0, 1, 2]);
}

#[test]
fn a_corner_used_thrice_in_a_triangle_is_one_vertex() {
    let shapes = vec![Primitive::Triangle(corner(5, 2), corner(5, 2), corner(5, 2))];
    let (vertices, indices) = index_geometry(&shapes).unwrap();
    assert_eq!(vertices, vec![vertex(5, 2)]);
    assert_eq!(indices, vec![0, 0, 0]);
}

#[test]
fn no_shapes_make_an_empty_mesh() {
    let (vertices, indices) = index_geometry(&vec![]).unwrap();
    assert!(vertices.is_empty());
    assert!(indices.is_empty());
}

#[test]
fn indices_stay_inside_the_vertices() {
    let mut shapes = Vec::new();
    for i in 0..50usize {
        shapes.push(Primitive::Triangle(
            corner(i % 7, 0),
            corner((i * 3) % 11, i % 2),
            corner(i % 5, 1),
        ));
    }
    let (vertices, indices) = index_geometry(&shapes).unwrap();
    assert_eq!(indices.len(), 150);
    for (k, i) in indices.iter().enumerate() {
        let shape = match shapes[k / 3] {
            Primitive::Triangle(a, b, c) => [a, b, c],
            _ => unreachable!(),
        };
        let expected = shape[k % 3];
        assert_eq!(
            vertices[*i as usize],
            vertex(expected.0, expected.2.unwrap())
        );
    }
    for a in 0..vertices.len() {
        for b in 0..a {
            assert_ne!(vertices[a], vertices[b]);
        }
    }
}

#[test]
fn a_shape_that_is_no_triangle_is_not_supported() {
    let shapes = vec![
        Primitive::Triangle(corner(0, 0), corner(1, 0), corner(2, 0)),
        Primitive::Line(corner(0, 0), corner(1, 0)),
    ];
    assert_eq!(
        index_geometry(&shapes),
        Err("unsupported non-triangle shape".to_string())
    );
    let shapes = vec![Primitive::Point(corner(0, 0))];
    assert_eq!(
        index_geometry(&shapes),
        Err("unsupported non-triangle shape".to_string())
    );
}

#[test]
fn a_corner_without_a_normal_is_missed() {
    let shapes = vec![Primitive::Triangle(
        corner(0, 0),
        (1, None, None),
        corner(2, 0),
    )];
    assert_eq!(
        index_geometry(&shapes),
        Err("missing normal for a vertex".to_string())
    );
}

#[test]
fn the_first_shape_that_fails_decides_what_is_said() {
    let shapes = vec![
        Primitive::Triangle((0, None, None), corner(1, 0), corner(2, 0)),
        Primitive::Point(corner(0, 0)),
    ];
    assert_eq!(
        index_geometry(&shapes),
        Err("missing normal for a vertex".to_string())
    );
    let shapes = vec![
        Primitive::Point(corner(0, 0)),
        Primitive::Triangle((0, None, None), corner(1, 0), corner(2, 0)),
    ];
    assert_eq!(
        index_geometry(&shapes),
        Err("unsupported non-triangle shape".to_string())
    );
}

#[test]
fn the_last_material_of_a_name_is_picked() {
    let names = vec!["Blue".to_string(), "Red".to_string(), "Blue".to_string()];
    assert_eq!(pick_material(Some(&names), Some(&"Blue".to_string())), Some(2));
    assert_eq!(pick_material(Some(&names), Some(&"Red".to_string())), Some(1));
    assert_eq!(pick_material(Some(&names), Some(&"Green".to_string())), None);
    assert_eq!(pick_material(Some(&names), None), None);
    assert_eq!(pick_material(None, Some(&"Blue".to_string())), None);
    assert_eq!(pick_material(Some(&vec![]), Some(&"Blue".to_string())), None);
}

#[test]
fn a_parsed_model_loads_geometry_by_geometry() {
    let set = parse_obj(SQUARE).unwrap();
    let library = parse_mtl(MATERIALS).unwrap();
    let obj = Obj::load_single(&set, Some(&library)).unwrap().unwrap();
    assert_eq!(obj.geometries.len(), 2);
    // The parser starts each triangle of a face at the last corner of the face.
    assert_eq!(
        obj.geometries[0].vertices,
        vec![vertex(2, 0), vertex(0, 0), vertex(1, 0), vertex(3, 0)]
    );
    assert_eq!(obj.geometries[0].indices, vec![0, 1, 2, 3, 1, 0]);
    assert_eq!(obj.geometries[0].material, Some(1));
    assert_eq!(
        obj.geometries[1].vertices,
        vec![vertex(2, 1), vertex(0, 1), vertex(1, 1)]
    );
    assert_eq!(obj.geometries[1].indices, vec![0, 1, 2]);
    assert_eq!(obj.geometries[1].material, Some(2));
}

#[test]
fn a_model_without_a_library_has_no_materials() {
    let set = parse_obj(SQUARE).unwrap();
    let obj = Obj::load_single(&set, None).unwrap().unwrap();
    assert_eq!(obj.geometries.len(), 2);
    assert_eq!(obj.geometries[0].material, None);
    assert_eq!(obj.geometries[1].material, None);
    let same = Obj::load(&set, None).unwrap();
    assert_eq!(same.geometries[0].indices, obj.geometries[0].indices);
}

#[test]
fn a_face_of_four_corners_is_two_triangles() {
    let text = "o Quad
v 0 0 0
v 1 0 0
v 1 1 0
v 0 1 0
vn 0 0 1
f 1//1 2//1 3//1 4//1
";
    let set = parse_obj(text).unwrap();
    let obj = Obj::load_single(&set, None).unwrap().unwrap();
    assert_eq!(obj.geometries.len(), 1);
    assert_eq!(obj.geometries[0].vertices.len(), 4);
    assert_eq!(obj.geometries[0].indices.len(), 6);
    for i in obj.geometries[0].indices.iter() {
        assert!(*i < 4);
    }
}

#[test]
fn a_model_with_a_line_does_not_load() {
    let text = "o Wire
v 0 0 0
v 1 0 0
vn 0 0 1
l 1 2
";
    let set = parse_obj(text).unwrap();
    assert_eq!(
        Obj::load_single(&set, None).unwrap().err(),
        Some("unsupported non-triangle shape".to_string())
    );
}

#[test]
fn a_model_without_normals_does_not_load() {
    let text = "o Bare
v 0 0 0
v 1 0 0
v 1 1 0
f 1 2 3
";
    let set = parse_obj(text).unwrap();
    assert_eq!(
        Obj::load_single(&set, None).unwrap().err(),
        Some("missing normal for a vertex".to_string())
    );
}

#[test]
fn only_models_of_one_object_are_loaded() {
    let text = "o First
v 0 0 0
v 1 0 0
v 1 1 0
vn 0 0 1
f 1//1 2//1 3//1
o Second
v 0 0 0
v 1 0 0
v 1 1 0
vn 0 0 1
f 4//2 5//2 6//2
";
    let set = parse_obj(text).unwrap();
    assert!(Obj::load_single(&set, None).is_none());
    let empty = parse_obj("").unwrap();
    assert!(Obj::load_single(&empty, None).is_none());
}

#[test]
fn a_text_that_is_no_model_cannot_be_parsed() {
    let error = parse_obj("o Broken\nv 0 0\nf 1 2 3\n").err().unwrap();
    assert!(error.starts_with("cannot parse: "));
    assert!(error.len() > "cannot parse: ".len());
    let error = parse_obj("o Broken\nv 0 0 0\nvn 0 0 1\nf 1//1 2//1 3//1\n")
        .err()
        .unwrap();
    assert!(error.starts_with("cannot parse: "));
    let error = parse_mtl("newmtl Broken\nNs ten\n").err().unwrap();
    assert!(error.starts_with("cannot parse: "));
}

#[test]
fn a_wide_negative_index_is_not_parsed() {
    assert!(!holds_wide_negative("v -1.5 -0.25 -12345678.0\nf -1 -2 -3\n"));
    assert!(holds_wide_negative("f -123456789 2 3\n"));
    assert!(holds_wide_negative("f 1 2 -9223372036854775808\n"));
    assert!(!holds_wide_negative("f 123456789012 2 3\n"));
    assert!(!holds_wide_negative("-12345678"));
    assert!(!holds_wide_negative(""));
    let text = "o Far
v 0 0 0
v 1 0 0
v 1 1 0
vn 0 0 1
f -9223372036854775807//1 2//1 3//1
";
    let error = parse_obj(text).err().unwrap();
    assert!(error.starts_with("cannot parse: "));
}

#[test]
fn an_entity_draws_its_meshes_in_the_order_of_the_model() {
    let set = parse_obj(SQUARE).unwrap();
    let library = parse_mtl(MATERIALS).unwrap();
    let obj = Obj::load_single(&set, Some(&library)).unwrap().unwrap();
    let entity = Entity::new(&obj);
    assert_eq!(entity.mesh_count(), 2);
    assert_eq!(entity.render(), &vec![Some(1), Some(2)]);
}

#[test]
fn a_new_entity_is_at_rest() {
    let obj = Obj { geometries: Vec::new() };
    let entity = Entity::new(&obj);
    let pose = entity.pose();
    for coordinate in pose.pos.iter() {
        assert_eq!(coordinate.to_bits(), 0.0f32.to_bits());
    }
    assert_eq!(pose.rot_x.to_bits(), 0.0f32.to_bits());
    assert_eq!(pose.rot_y.to_bits(), 0.0f32.to_bits());
    assert_eq!(pose.rot_z.to_bits(), 0.0f32.to_bits());
    assert_eq!(pose.scale.to_bits(), 1.0f32.to_bits());
    assert_eq!(entity.mesh_count(), 0);
}

#[test]
fn pose_setters_change_their_part_alone() {
    let number = |x: f32| Single::from_bits(x.to_bits());
    let obj = Obj { geometries: Vec::new() };
    let mut entity = Entity::new(&obj);
    entity.set_scale(number(2.0));
    entity.set_position([number(1.0), number(0.0), number(0.0)]);
    let pose = entity.pose();
    assert_eq!(pose.scale.to_bits(), 2.0f32.to_bits());
    assert_eq!(pose.pos[0].to_bits(), 1.0f32.to_bits());
    assert_eq!(pose.rot_x.to_bits(), 0.0f32.to_bits());
    entity.set_rotation(number(0.1), number(0.2), number(0.3));
    let pose = entity.pose();
    assert_eq!(pose.rot_x.to_bits(), 0.1f32.to_bits());
    assert_eq!(pose.rot_y.to_bits(), 0.2f32.to_bits());
    assert_eq!(pose.rot_z.to_bits(), 0.3f32.to_bits());
    assert_eq!(pose.scale.to_bits(), 2.0f32.to_bits());
    assert_eq!(pose.pos[0].to_bits(), 1.0f32.to_bits());
}

#[test]
fn the_scene_draws_the_terrain_before_the_mesh() {
    let set = parse_obj(SQUARE).unwrap();
    let obj = Obj::load_single(&set, None).unwrap().unwrap();
    let mesh = Entity::new(&obj);
    let ground = Obj {
        geometries: vec![scene_engine::spatial::obj::Geometry {
            vertices: Vec::new(),
            indices: Vec::new(),
            material: Some(7),
        }],
    };
    let terrain = Entity::new(&ground);
    let renderer = Renderer::new(terrain, mesh);
    assert_eq!(
        renderer.render_depth(),
        vec![
            DepthDraw { entity: SceneEntity::Terrain, mesh: 0 },
            DepthDraw { entity: SceneEntity::Mesh, mesh: 0 },
            DepthDraw { entity: SceneEntity::Mesh, mesh: 1 },
        ]
    );
    assert_eq!(
        renderer.render(),
        vec![
            ColorDraw { entity: SceneEntity::Terrain, mesh: 0, material: Some(7) },
            ColorDraw { entity: SceneEntity::Mesh, mesh: 0, material: None },
            ColorDraw { entity: SceneEntity::Mesh, mesh: 1, material: None },
        ]
    );
}
