use ggl::handle::Handle;
use ggl::loaders::{
    default_shaders, default_texture_paths, repeat_pattern, texture_format, texture_format_name, ColorType,
    ModelHandle, ModelType, ObjLoader, ShaderLoader, TextureLoader, DEFAULT_BILLBOARD_SHADER, DEFAULT_CUBE_NAME, DEFAULT_LIT_SHADER,
    DEFAULT_TEXTURE, DEFAULT_UNLIT_SHADER, GL_RED, GL_RGB, GL_RGBA,
};
use std::rc::Rc;

#[test]
fn handles_share_their_value() {
    let h = Handle::new(5);
    let h2 = h.clone();
    *h2.borrow_mut() = 6;
    assert_eq!(*h.borrow(), 6);
    assert_eq!(*h.share().cell().borrow(), 6);
}

#[test]
fn added_model_is_handed_out() {
    let mut loader: ObjLoader<String> = ObjLoader::new();
    let h = loader.add_model("cube".to_string(), "cube model".to_string());
    assert!(loader.contains("cube") && !loader.contains("plane"));
    let h2 = loader.clone_handle("cube");
    h.borrow_mut().push('!');
    assert_eq!(*h2.borrow(), "cube model!");
    assert_eq!(loader.models().len(), 1);
}

#[test]
fn load_model_loads_once_per_path() {
    let mut loader: ObjLoader<String> = ObjLoader::new();
    let r = loader.load_model("Model 0".to_string(), "a.obj".to_string(), |name: String, path: String| {
        Ok::<String, ()>(format!("{name} from {path}"))
    });
    assert_eq!(*r.unwrap().borrow(), "Model 0 from a.obj");
    let failed = loader.load_model("Model 1".to_string(), "b.obj".to_string(), |_n: String, _p: String| {
        Err::<String, &str>("no such file")
    });
    assert_eq!(failed.err(), Some("no such file"));
    assert_eq!(loader.models().len(), 1);
}

#[test]
fn clone_copies_named_model_or_default_cube() {
    let mut loader: ObjLoader<String> = ObjLoader::new();
    loader.add_model(DEFAULT_CUBE_NAME.to_string(), "cube".to_string());
    loader.add_model("lamp".to_string(), "lamp".to_string());
    let copy = |h: &Handle<String>, new_name: &str| format!("{} as {}", h.borrow(), new_name);
    let a = loader.clone("lamp", "lamp 2", copy);
    assert_eq!(*a.borrow(), "lamp as lamp 2");
    let b = loader.clone("missing", "other", copy);
    assert_eq!(*b.borrow(), "cube as other");
    // The copy has a cell of its own: changing it leaves the source as it was.
    a.borrow_mut().push('!');
    assert_eq!(*loader.clone_handle("lamp").borrow(), "lamp");
    assert_eq!(*loader.clone_handle("lamp 2").borrow(), "lamp as lamp 2!");
    assert_eq!(loader.models().len(), 4);
}

#[test]
fn shader_loader_keeps_first_program_and_falls_back_to_unlit() {
    let mut shaders: ShaderLoader<u32> = ShaderLoader::new();
    assert!(!shaders.contains(DEFAULT_UNLIT_SHADER));
    assert!(shaders.load_shader(DEFAULT_UNLIT_SHADER, || Ok::<u32, String>(1)).is_ok());
    assert!(shaders.contains(DEFAULT_UNLIT_SHADER));
    assert!(shaders.load_shader(DEFAULT_UNLIT_SHADER, || Ok::<u32, String>(2)).is_ok());
    assert_eq!(shaders.load_shader("broken", || Err::<u32, String>("bad".to_string())), Err("bad".to_string()));
    assert_eq!(*shaders.get_shader_rc(DEFAULT_UNLIT_SHADER), 1);
    assert_eq!(*shaders.get_shader_rc("broken"), 1);
    let a = shaders.get_shader_rc(DEFAULT_UNLIT_SHADER);
    let b = shaders.get_shader_rc("anything");
    assert!(Rc::ptr_eq(&a, &b));
}

#[test]
fn default_shader_table() {
    let t = default_shaders();
    assert_eq!(t.len(), 3);
    assert_eq!(t[0], (DEFAULT_UNLIT_SHADER, "assets/shaders/default_unlit.vert", "assets/shaders/default_unlit.frag"));
    assert_eq!(t[1], (DEFAULT_BILLBOARD_SHADER, "assets/shaders/billboard_textured.vert", "assets/shaders/simple.frag"));
    assert_eq!(t[2], (DEFAULT_LIT_SHADER, "assets/shaders/textured.vert", "assets/shaders/lit-textured.frag"));
}

#[test]
fn texture_loader_caches_and_falls_back() {
    let mut textures: TextureLoader<u32> = TextureLoader::new();
    textures.setup_default_texture(|(w, h): (i32, i32), format: u32, data: &Vec<u8>| {
        assert_eq!((w, h), (1, 1));
        assert_eq!(format, GL_RGB);
        assert_eq!(data, &vec![255u8, 0, 255]);
        99
    });
    assert_eq!(textures.default_texture(), 99);
    assert!(textures.contains(DEFAULT_TEXTURE) && !textures.contains("white"));
    assert_eq!(textures.load_texture("white", || 1), 1);
    assert_eq!(textures.load_texture("white", || 2), 1);
    assert_eq!(textures.borrow("white"), 1);
    assert_eq!(textures.white_texture(), 1);
    assert_eq!(textures.borrow("nothing"), 99);
    assert_eq!(textures.checker_texture(), 99);
    assert_eq!(textures.black_texture(), 99);
    assert_eq!(textures.point_light_texture(), 99);
    assert_eq!(textures.directional_light_texture(), 99);
    assert_eq!(DEFAULT_TEXTURE, "default");
    assert_eq!(
        default_texture_paths(),
        vec![
            "assets/textures/white.jpeg",
            "assets/textures/black.jpg",
            "assets/textures/grid.jpg",
            "assets/textures/checker_32_32.jpg",
            "assets/textures/point_light_white.png",
            "assets/textures/directional_light_white.png",
        ]
    );
}

#[test]
fn texture_formats() {
    assert_eq!(texture_format(ColorType::L8), Some(GL_RED));
    assert_eq!(texture_format(ColorType::Rgb8), Some(GL_RGB));
    assert_eq!(texture_format(ColorType::Rgba8), Some(GL_RGBA));
    assert_eq!(texture_format(ColorType::Rgba16), None);
    assert_eq!(texture_format_name(GL_RGB), Some("GL_RGB"));
    assert_eq!(texture_format_name(0), None);
    assert_eq!(GL_RED, glow::RED);
    assert_eq!(GL_RGB, glow::RGB);
    assert_eq!(GL_RGBA, glow::RGBA);
}

#[test]
fn pattern_repeats() {
    assert_eq!(repeat_pattern(&vec![1, 2, 3], 7), vec![1, 2, 3, 1, 2, 3, 1]);
    assert!(repeat_pattern(&vec![1], 0).is_empty());
    assert!(repeat_pattern(&vec![], 5).is_empty());
}

#[test]
fn model_handle_and_type_defaults() {
    assert_eq!(ModelHandle::default().0, "");
    assert_eq!(ModelType::default(), ModelType::Normal);
}
