use ggl::text::format_entity_name;
use ggl::uniforms::{
    base_name, count_enabled, light_count_uniform_name, light_uniform_name, lit_texture_bindings,
    mesh_texture_uniforms, numbered, texture_uniform_name, texture_uniforms, TextureType,
};

#[test]
fn lit_bindings_use_consecutive_units() {
    let b = lit_texture_bindings([Some(10), None, Some(12)], [None, Some(21), None], Some(30));
    let got: Vec<(String, u32, i32)> = b.into_iter().map(|x| (x.uniform, x.unit, x.texture)).collect();
    assert_eq!(
        got,
        vec![
            ("u_material.texture_diffuse1".to_string(), 1, 10),
            ("u_material.texture_diffuse3".to_string(), 2, 12),
            ("u_material.texture_specular2".to_string(), 3, 21),
            ("u_material.texture_emissive1".to_string(), 4, 30),
        ]
    );
    assert!(lit_texture_bindings::<i32>([None, None, None], [None, None, None], None).is_empty());
}

#[test]
fn texture_uniform_names() {
    assert_eq!(base_name(TextureType::Specular), "texture_specular");
    assert_eq!(texture_uniform_name("m.", TextureType::Diffuse, 12), "m.texture_diffuse12");
    let t = texture_uniforms(&vec![(TextureType::Emissive, 1), (TextureType::Diffuse, 2)], "");
    assert_eq!(t, vec![("texture_emissive1".to_string(), 0), ("texture_diffuse2".to_string(), 1)]);
}

#[test]
fn mesh_textures_are_numbered_per_type() {
    let types = vec![
        TextureType::Diffuse,
        TextureType::Specular,
        TextureType::Diffuse,
        TextureType::Emissive,
        TextureType::Emissive,
        TextureType::Specular,
    ];
    assert_eq!(
        mesh_texture_uniforms(&types, "u_material."),
        vec![
            "u_material.texture_diffuse1",
            "u_material.texture_specular1",
            "u_material.texture_diffuse2",
            "u_material.texture_emissive1",
            "u_material.texture_emissive1",
            "u_material.texture_specular2",
        ]
    );
}

#[test]
fn light_uniforms() {
    assert_eq!(light_uniform_name("point_lights", 3), "u_point_lights[3]");
    assert_eq!(light_count_uniform_name("spot_lights"), "u_num_spot_lights");
    assert_eq!(count_enabled(&vec![true, false, true, true]), 3);
    assert_eq!(count_enabled(&vec![]), 0);
}

#[test]
fn decimal_names() {
    assert_eq!(format_entity_name(0), "Entity 0");
    assert_eq!(format_entity_name(1234), "Entity 1234");
    assert_eq!(format_entity_name(9), "Entity 9");
    assert_eq!(format_entity_name(10), "Entity 10");
    assert_eq!(format_entity_name(100), "Entity 100");
    assert_eq!(format_entity_name(usize::MAX), format!("Entity {}", usize::MAX));
    assert_eq!(numbered("x", 40), "x40");
}
