//! Bookkeeping of loaded assets: models, shader programs and textures, by
//! name.  Reading files and talking to the GPU is left to the callers,
//! which hand in what they loaded.

use vstd::prelude::*;

use std::rc::Rc;

use crate::handle::{clone_rc, Handle};
use crate::registry::NameMap;

verus! {

/// Name of the cube model that every loader starts with.
pub const DEFAULT_CUBE_NAME: &'static str = "default_cube";

/// Name of the square billboard model that every loader starts with.
pub const DEFAULT_PLANE_NAME: &'static str = "default_plane";

/// Models by name.
#[verifier::reject_recursive_types(M)]
pub struct ObjLoader<M> {
    models: NameMap<Handle<M>>,
}

impl<M> ObjLoader<M> {
    /// The models by name.
    pub closed spec fn view(&self) -> Map<Seq<char>, Handle<M>> {
        self.models@
    }

    /// A loader with no model.
    pub fn new() -> (l: Self)
        ensures
            l@ == Map::<Seq<char>, Handle<M>>::empty(),
    {
        ObjLoader { models: NameMap::new() }
    }

    /// Stores `model` under `model_key` (replacing any model there) and
    /// returns a handle to it.  The handle is a new one: where a model was
    /// stored under `model_key`, its handle is not the one handed out.
    pub fn add_model(&mut self, model_key: String, model: M) -> (h: Handle<M>)
        ensures
            final(self)@ == old(self)@.insert(model_key@, h),
            old(self)@.contains_key(model_key@) ==> h != old(self)@[model_key@],
    {
        let h = match self.models.get(model_key.as_str()) {
            Some(previous) => Handle::new_apart(model, previous),
            None => Handle::new(model),
        };
        let r = h.share();
        self.models.insert(model_key, h);
        r
    }

    /// A handle to the model named `name`, loading it first with `load`
    /// (given the name and the path) where no model is stored under `path`.
    /// A load that fails leaves the loader as it was.
    pub fn load_model<E, L: FnOnce(String, String) -> Result<M, E>>(
        &mut self,
        name: String,
        path: String,
        load: L,
    ) -> (r: Result<Handle<M>, E>)
        requires
            old(self)@.contains_key(path@) ==> old(self)@.contains_key(name@),
            call_requires(load, (name, path)),
        ensures
            old(self)@.contains_key(path@) ==> final(self)@ == old(self)@ && r == Ok::<
                Handle<M>,
                E,
            >(old(self)@[name@]),
            !old(self)@.contains_key(path@) ==> exists|res: Result<M, E>|
                call_ensures(load, (name, path), res) && match res {
                    Ok(m) => exists|h: Handle<M>|
                        final(self)@ == old(self)@.insert(name@, h) && r == Ok::<Handle<M>, E>(h),
                    Err(e) => final(self)@ == old(self)@ && r == Err::<Handle<M>, E>(e),
                },
    {
        if !self.models.contains_key(path.as_str()) {
            let res = load(name.clone(), path.clone());
            match res {
                Ok(model) => {
                    let h = self.add_model(name, model);
                    return Ok(h);
                },
                Err(e) => {
                    return Err(e);
                },
            }
        }
        let t = self.models.get(name.as_str()).unwrap();
        Ok(t.share())
    }

    /// Whether a model is stored under `name`.
    pub fn contains(&self, name: &str) -> (r: bool)
        ensures
            r == self@.contains_key(name@),
    {
        self.models.contains_key(name)
    }

    /// A handle to the model named `model_key`.
    pub fn clone_handle(&mut self, model_key: &str) -> (h: Handle<M>)
        requires
            old(self)@.contains_key(model_key@),
        ensures
            final(self)@ == old(self)@,
            h == old(self)@[model_key@],
    {
        self.models.get(model_key).unwrap().share()
    }

    /// The model that `clone` copies for `old_name`: that model where there
    /// is one, else the default cube.
    pub open spec fn clone_source(&self, old_name: Seq<char>) -> Handle<M> {
        if self@.contains_key(old_name) {
            self@[old_name]
        } else {
            self@[DEFAULT_CUBE_NAME@]
        }
    }

    /// Stores under `new_name`, in a cell of its own, a copy made by `copy`
    /// (and named `new_name` by it) of the model named `old_name`, or of the
    /// default cube where there is no such model; returns a handle to the
    /// copy.
    pub fn clone<F: FnOnce(&Handle<M>, &str) -> M>(
        &mut self,
        old_name: &str,
        new_name: &str,
        copy: F,
    ) -> (h: Handle<M>)
        requires
            old_name@ != new_name@,
            old(self)@.contains_key(old_name@) || old(self)@.contains_key(DEFAULT_CUBE_NAME@),
            call_requires(copy, (&old(self).clone_source(old_name@), new_name)),
        ensures
            exists|m: M| call_ensures(copy, (&old(self).clone_source(old_name@), new_name), m),
            final(self)@ == old(self)@.insert(new_name@, h),
            h != old(self).clone_source(old_name@),
    {
        let clone_name: &str = if self.models.contains_key(old_name) {
            old_name
        } else {
            DEFAULT_CUBE_NAME
        };
        let old_rc = self.models.get(clone_name).unwrap();
        let model_clone = copy(old_rc, new_name);
        let h = Handle::new_apart(model_clone, old_rc);
        let r = h.share();
        self.models.insert(new_name.to_owned(), h);
        r
    }

    /// The models by name.
    pub fn models(&mut self) -> (m: &mut NameMap<Handle<M>>)
        ensures
            m@ == old(self)@,
            final(self)@ == final(m)@,
    {
        &mut self.models
    }
}

/// Name of the unlit shader program.
pub const DEFAULT_UNLIT_SHADER: &'static str = "default_unlit";

/// Name of the billboard shader program.
pub const DEFAULT_BILLBOARD_SHADER: &'static str = "default_billboard";

/// Name of the lit shader program.
pub const DEFAULT_LIT_SHADER: &'static str = "default_lit";

/// The shader programs that every shader loader loads: name, vertex shader
/// path, fragment shader path.
pub fn default_shaders() -> (r: Vec<(&'static str, &'static str, &'static str)>)
    ensures
        r@.len() == 3,
        r@[0].0 == DEFAULT_UNLIT_SHADER,
        r@[0].1@ == "assets/shaders/default_unlit.vert"@,
        r@[0].2@ == "assets/shaders/default_unlit.frag"@,
        r@[1].0 == DEFAULT_BILLBOARD_SHADER,
        r@[1].1@ == "assets/shaders/billboard_textured.vert"@,
        r@[1].2@ == "assets/shaders/simple.frag"@,
        r@[2].0 == DEFAULT_LIT_SHADER,
        r@[2].1@ == "assets/shaders/textured.vert"@,
        r@[2].2@ == "assets/shaders/lit-textured.frag"@,
{
    let mut r = Vec::new();
    r.push((DEFAULT_UNLIT_SHADER, "assets/shaders/default_unlit.vert", "assets/shaders/default_unlit.frag"));
    r.push((
        DEFAULT_BILLBOARD_SHADER,
        "assets/shaders/billboard_textured.vert",
        "assets/shaders/simple.frag",
    ));
    r.push((DEFAULT_LIT_SHADER, "assets/shaders/textured.vert", "assets/shaders/lit-textured.frag"));
    r
}

/// Shader programs by name.
pub struct ShaderLoader<P> {
    shaders: NameMap<Rc<P>>,
}

impl<P> ShaderLoader<P> {
    /// The programs by name.
    pub closed spec fn view(&self) -> Map<Seq<char>, Rc<P>> {
        self.shaders@
    }

    /// A loader with no program.
    pub fn new() -> (l: Self)
        ensures
            l@ == Map::<Seq<char>, Rc<P>>::empty(),
    {
        ShaderLoader { shaders: NameMap::new() }
    }

    /// Whether a program is stored under `name`.
    pub fn contains(&self, name: &str) -> (r: bool)
        ensures
            r == self@.contains_key(name@),
    {
        self.shaders.contains_key(name)
    }

    /// Where no program is stored under `program_name`, builds one with
    /// `load` and stores it there; a failure is handed back and leaves the
    /// loader as it was.  Where one is stored, `load` is not called.
    pub fn load_shader<E, F: FnOnce() -> Result<P, E>>(&mut self, program_name: &str, load: F) -> (r:
        Result<(), E>)
        requires
            call_requires(load, ()),
        ensures
            old(self)@.contains_key(program_name@) ==> final(self)@ == old(self)@ && r is Ok,
            !old(self)@.contains_key(program_name@) ==> exists|res: Result<P, E>|
                call_ensures(load, (), res) && match res {
                    Ok(p) => final(self)@ == old(self)@.insert(program_name@, Rc::new(p)) && r is Ok,
                    Err(e) => final(self)@ == old(self)@ && r == Err::<(), E>(e),
                },
    {
        if !self.shaders.contains_key(program_name) {
            match load() {
                Ok(shader) => {
                    self.shaders.insert(program_name.to_owned(), Rc::new(shader));
                },
                Err(err) => {
                    return Err(err);
                },
            }
        }
        Ok(())
    }

    /// The program named `program_name`, or the unlit program where there
    /// is none of that name.
    pub fn get_shader_rc(&mut self, program_name: &str) -> (r: Rc<P>)
        requires
            old(self)@.contains_key(program_name@) || old(self)@.contains_key(DEFAULT_UNLIT_SHADER@),
        ensures
            final(self)@ == old(self)@,
            r == if old(self)@.contains_key(program_name@) {
                old(self)@[program_name@]
            } else {
                old(self)@[DEFAULT_UNLIT_SHADER@]
            },
    {
        if self.shaders.contains_key(program_name) {
            clone_rc(self.shaders.get(program_name).unwrap())
        } else {
            clone_rc(self.shaders.get(DEFAULT_UNLIT_SHADER).unwrap())
        }
    }
}

/// Name of the texture that stands in for any texture that is missing.
pub const DEFAULT_TEXTURE: &'static str = "default";

/// The OpenGL pixel format with one (red) channel.
pub const GL_RED: u32 = 0x1903;

/// The OpenGL pixel format with red, green and blue channels.
pub const GL_RGB: u32 = 0x1907;

/// The OpenGL pixel format with red, green, blue and alpha channels.
pub const GL_RGBA: u32 = 0x1908;

/// The image files that every texture loader loads.
pub fn default_texture_paths() -> (r: Vec<&'static str>)
    ensures
        r@.len() == 6,
        r@[0]@ == "assets/textures/white.jpeg"@,
        r@[1]@ == "assets/textures/black.jpg"@,
        r@[2]@ == "assets/textures/grid.jpg"@,
        r@[3]@ == "assets/textures/checker_32_32.jpg"@,
        r@[4]@ == "assets/textures/point_light_white.png"@,
        r@[5]@ == "assets/textures/directional_light_white.png"@,
{
    let mut r = Vec::new();
    r.push("assets/textures/white.jpeg");
    r.push("assets/textures/black.jpg");
    r.push("assets/textures/grid.jpg");
    r.push("assets/textures/checker_32_32.jpg");
    r.push("assets/textures/point_light_white.png");
    r.push("assets/textures/directional_light_white.png");
    r
}

/// The colour layout of a decoded image.
#[derive(Debug, Clone, Copy, PartialEq, Eq, Structural)]
pub enum ColorType {
    L8,
    La8,
    Rgb8,
    Rgba8,
    L16,
    La16,
    Rgb16,
    Rgba16,
    Rgb32F,
    Rgba32F,
}

/// The OpenGL format that an image of this colour layout is uploaded as;
/// only 8-bit grey, RGB and RGBA images are supported.
pub open spec fn gl_format(color: ColorType) -> Option<u32> {
    match color {
        ColorType::L8 => Some(GL_RED),
        ColorType::Rgb8 => Some(GL_RGB),
        ColorType::Rgba8 => Some(GL_RGBA),
        _ => None::<u32>,
    }
}

/// The OpenGL format that an image of this colour layout is uploaded as;
/// only 8-bit grey, RGB and RGBA images are supported.
pub fn texture_format(color: ColorType) -> (r: Option<u32>)
    ensures
        r == gl_format(color),
{
    match color {
        ColorType::L8 => Some(GL_RED),
        ColorType::Rgb8 => Some(GL_RGB),
        ColorType::Rgba8 => Some(GL_RGBA),
        _ => None,
    }
}

/// The number of channels of a pixel of this colour layout.
pub open spec fn channels(color: ColorType) -> nat {
    match color {
        ColorType::L8 | ColorType::L16 => 1,
        ColorType::La8 | ColorType::La16 => 2,
        ColorType::Rgb8 | ColorType::Rgb16 | ColorType::Rgb32F => 3,
        ColorType::Rgba8 | ColorType::Rgba16 | ColorType::Rgba32F => 4,
    }
}

/// The number of bytes of one channel of a pixel of this colour layout.
pub open spec fn sample_bytes(color: ColorType) -> nat {
    match color {
        ColorType::L8 | ColorType::La8 | ColorType::Rgb8 | ColorType::Rgba8 => 1,
        ColorType::L16 | ColorType::La16 | ColorType::Rgb16 | ColorType::Rgba16 => 2,
        ColorType::Rgb32F | ColorType::Rgba32F => 4,
    }
}

/// The number of channels of a pixel in an OpenGL pixel format.
pub open spec fn format_channels(format: u32) -> nat {
    if format == GL_RED {
        1
    } else if format == GL_RGB {
        3
    } else if format == GL_RGBA {
        4
    } else {
        0
    }
}

/// A colour layout gets an OpenGL format exactly when its channels are one
/// byte each and it is not grey with alpha; the format then has as many
/// channels as the layout, so its bytes are uploaded as they are.
pub proof fn law_only_byte_layouts_are_uploaded(color: ColorType)
    ensures
        gl_format(color) is Some <==> sample_bytes(color) == 1 && channels(color) != 2,
        gl_format(color) matches Some(f) ==> format_channels(f) == channels(color),
{
}

/// The OpenGL name of a supported pixel format.
pub fn texture_format_name(format: u32) -> (r: Option<&'static str>)
    ensures
        format == GL_RED ==> r == Some("GL_RED"),
        format == GL_RGB ==> r == Some("GL_RGB"),
        format == GL_RGBA ==> r == Some("GL_RGBA"),
        format != GL_RED && format != GL_RGB && format != GL_RGBA ==> r is None,
{
    if format == GL_RED {
        Some("GL_RED")
    } else if format == GL_RGB {
        Some("GL_RGB")
    } else if format == GL_RGBA {
        Some("GL_RGBA")
    } else {
        None
    }
}

/// `n` values taken from `pattern` over and over; none from an empty
/// pattern.
pub fn repeat_pattern(pattern: &Vec<u8>, n: usize) -> (r: Vec<u8>)
    ensures
        pattern@.len() == 0 ==> r@ == Seq::<u8>::empty(),
        pattern@.len() > 0 ==> r@ == Seq::new(n as nat, |i: int| pattern@[i % pattern@.len() as int]),
{
    let mut r: Vec<u8> = Vec::new();
    if pattern.len() == 0 {
        return r;
    }
    let mut i: usize = 0;
    while i < n
        invariant
            pattern@.len() > 0,
            i <= n,
            r@ == Seq::new(i as nat, |q: int| pattern@[q % pattern@.len() as int]),
        decreases n - i,
    {
        r.push(pattern[i % pattern.len()]);
        i = i + 1;
        assert(r@ =~= Seq::new(i as nat, |q: int| pattern@[q % pattern@.len() as int]));
    }
    r
}

/// Textures by name.
pub struct TextureLoader<T> {
    textures: NameMap<T>,
}

impl<T: Copy> TextureLoader<T> {
    /// The textures by name.
    pub closed spec fn view(&self) -> Map<Seq<char>, T> {
        self.textures@
    }

    /// A loader with no texture.
    pub fn new() -> (l: Self)
        ensures
            l@ == Map::<Seq<char>, T>::empty(),
    {
        TextureLoader { textures: NameMap::new() }
    }

    /// Whether a texture is stored under `name`.
    pub fn contains(&self, name: &str) -> (r: bool)
        ensures
            r == self@.contains_key(name@),
    {
        self.textures.contains_key(name)
    }

    /// Stores, as the default texture, the one that `from_data` makes of a
    /// single magenta RGB pixel.
    pub fn setup_default_texture<F: FnOnce((i32, i32), u32, &Vec<u8>) -> T>(&mut self, from_data: F)
        requires
            forall|b: &Vec<u8>| call_requires(from_data, ((1i32, 1i32), GL_RGB, b)),
        ensures
            exists|b: Vec<u8>, t: T|
                b@ == seq![255u8, 0u8, 255u8] && call_ensures(from_data, ((1i32, 1i32), GL_RGB, &b), t)
                    && final(self)@ == old(self)@.insert(DEFAULT_TEXTURE@, t),
    {
        let w: i32 = 1;
        let h: i32 = 1;
        let mut pixel: Vec<u8> = Vec::new();
        pixel.push(255u8);
        pixel.push(0u8);
        pixel.push(255u8);
        let buffer = repeat_pattern(&pixel, pixel.len() * (w as usize) * (h as usize));
        assert(buffer@.len() == 3);
        assert(buffer@[0] == 255u8 && buffer@[1] == 0u8 && buffer@[2] == 255u8);
        assert(buffer@ =~= seq![255u8, 0u8, 255u8]);
        let t = from_data((w, h), GL_RGB, &buffer);
        self.textures.insert(DEFAULT_TEXTURE.to_owned(), t);
    }

    /// The texture stored under `file_name`; where there is none, the one
    /// that `load` makes, stored there first.
    pub fn load_texture<F: FnOnce() -> T>(&mut self, file_name: &str, load: F) -> (r: T)
        requires
            call_requires(load, ()),
        ensures
            old(self)@.contains_key(file_name@) ==> final(self)@ == old(self)@ && r == old(self)@[file_name@],
            !old(self)@.contains_key(file_name@) ==> call_ensures(load, (), r) && final(self)@ == old(
                self,
            )@.insert(file_name@, r),
    {
        if self.textures.contains_key(file_name) {
            return *self.textures.get(file_name).unwrap();
        }
        let texture_handle = load();
        self.textures.insert(file_name.to_owned(), texture_handle);
        texture_handle
    }

    /// The texture stored under `file_name`, or the default texture where
    /// there is none.
    pub fn borrow(&self, file_name: &str) -> (r: T)
        requires
            self@.contains_key(file_name@) || self@.contains_key(DEFAULT_TEXTURE@),
        ensures
            r == if self@.contains_key(file_name@) {
                self@[file_name@]
            } else {
                self@[DEFAULT_TEXTURE@]
            },
    {
        match self.textures.get(file_name) {
            Some(tex) => *tex,
            None => self.default_texture(),
        }
    }

    /// The default texture.
    pub fn default_texture(&self) -> (r: T)
        requires
            self@.contains_key(DEFAULT_TEXTURE@),
        ensures
            r == self@[DEFAULT_TEXTURE@],
    {
        *self.textures.get(DEFAULT_TEXTURE).unwrap()
    }

    /// The checker texture (see `borrow`).
    pub fn checker_texture(&self) -> (r: T)
        requires
            self@.contains_key("checker_32_32"@) || self@.contains_key(DEFAULT_TEXTURE@),
        ensures
            r == if self@.contains_key("checker_32_32"@) {
                self@["checker_32_32"@]
            } else {
                self@[DEFAULT_TEXTURE@]
            },
    {
        self.borrow("checker_32_32")
    }

    /// The white texture (see `borrow`).
    pub fn white_texture(&self) -> (r: T)
        requires
            self@.contains_key("white"@) || self@.contains_key(DEFAULT_TEXTURE@),
        ensures
            r == if self@.contains_key("white"@) {
                self@["white"@]
            } else {
                self@[DEFAULT_TEXTURE@]
            },
    {
        self.borrow("white")
    }

    /// The black texture (see `borrow`).
    pub fn black_texture(&self) -> (r: T)
        requires
            self@.contains_key("black"@) || self@.contains_key(DEFAULT_TEXTURE@),
        ensures
            r == if self@.contains_key("black"@) {
                self@["black"@]
            } else {
                self@[DEFAULT_TEXTURE@]
            },
    {
        self.borrow("black")
    }

    /// The point light icon texture (see `borrow`).
    pub fn point_light_texture(&self) -> (r: T)
        requires
            self@.contains_key("point_light_white"@) || self@.contains_key(DEFAULT_TEXTURE@),
        ensures
            r == if self@.contains_key("point_light_white"@) {
                self@["point_light_white"@]
            } else {
                self@[DEFAULT_TEXTURE@]
            },
    {
        self.borrow("point_light_white")
    }

    /// The directional light icon texture (see `borrow`).
    pub fn directional_light_texture(&self) -> (r: T)
        requires
            self@.contains_key("directional_light_white"@) || self@.contains_key(DEFAULT_TEXTURE@),
        ensures
            r == if self@.contains_key("directional_light_white"@) {
                self@["directional_light_white"@]
            } else {
                self@[DEFAULT_TEXTURE@]
            },
    {
        self.borrow("directional_light_white")
    }
}

/// A model, known by the path it was loaded from.
#[derive(Debug, Clone)]
pub struct ModelHandle(pub String);

impl Default for ModelHandle {
    fn default() -> (h: Self)
        ensures
            h.0@ == Seq::<char>::empty(),
    {
        ModelHandle(String::new())
    }
}

/// How a model is drawn.
#[derive(Debug, Clone, Copy, PartialEq, Eq, Structural)]
pub enum ModelType {
    Normal,
    Billboard,
}

impl Default for ModelType {
    fn default() -> (t: Self)
        ensures
            t == ModelType::Normal,
    {
        ModelType::Normal
    }
}

impl<M> ObjLoader<M> {
    /// A model stored under a name is what the loader hands out for that
    /// name from then on, until something else is stored there; the other
    /// names keep their models.
    pub proof fn law_stored_model_is_handed_out(pre: Self, post: Self, key: Seq<char>, h: Handle<M>)
        requires
            post@ == pre@.insert(key, h),
        ensures
            post@.contains_key(key),
            post@[key] == h,
            forall|k: Seq<char>| k != key ==> (#[trigger] post@.contains_key(k) == pre@.contains_key(k)),
            forall|k: Seq<char>| k != key && pre@.contains_key(k) ==> #[trigger] post@[k] == pre@[k],
    {
    }
}

impl<M> ObjLoader<M> {
    /// Adding a model under a name that already has one replaces it: the
    /// loader then hands out, for that name, a handle other than the one it
    /// handed out before, and keeps every other name's model.
    pub proof fn law_added_model_replaces(pre: Self, post: Self, key: Seq<char>, h: Handle<M>)
        requires
            post@ == pre@.insert(key, h),
            pre@.contains_key(key) ==> h != pre@[key],
        ensures
            post@[key] == h,
            pre@.contains_key(key) ==> post@[key] != pre@[key],
            forall|k: Seq<char>| k != key && pre@.contains_key(k) ==> #[trigger] post@[k] == pre@[k],
    {
    }
}

impl<T: Copy> TextureLoader<T> {
    /// Once a texture is stored under a name, borrowing that name gives it,
    /// and loading that name again gives it without loading anything.
    pub proof fn law_loaded_texture_is_kept(pre: Self, post: Self, name: Seq<char>, t: T)
        requires
            post@ == pre@.insert(name, t),
        ensures
            post@.contains_key(name),
            post@[name] == t,
    {
    }
}

} // verus!
