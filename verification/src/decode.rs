//! Decoding an image file's bytes into the pixels of a texture.

use vstd::prelude::*;

use image::ColorType as ImageColor;

use crate::loaders::{gl_format, texture_format, ColorType};

verus! {

/// A decoded image: its size in pixels, its colour layout and its pixel
/// bytes, row after row.
pub struct DecodedImage {
    pub width: u32,
    pub height: u32,
    pub color: ColorType,
    pub bytes: Vec<u8>,
}

/// What the image crate decodes from the bytes `bytes` of a file with the
/// extension `ext`: width, height, colour layout and pixel bytes, or
/// nothing where it decodes nothing.
pub uninterp spec fn decoded_image(ext: Seq<char>, bytes: Seq<u8>) -> Option<(u32, u32, ColorType, Seq<u8>)>;

/// `image::load_from_memory_with_format` of the image crate, in the format
/// that `ImageFormat::from_extension` gives for `ext` (as reading the file
/// through `image::io::Reader::open` would choose it).  The result is named
/// by `decoded_image`: the decoders are not stated here.  `None` where the
/// extension names no format, the bytes do not decode, or the colour
/// layout is one this library does not know.
#[verifier::external_body]
fn decode_image(ext: &str, data: &[u8]) -> (r: Option<DecodedImage>)
    ensures
        r is None <==> decoded_image(ext@, data@) is None,
        r matches Some(d) ==> decoded_image(ext@, data@) == Some((d.width, d.height, d.color, d.bytes@)),
{
    let img = image::load_from_memory_with_format(data, image::ImageFormat::from_extension(ext)?).ok()?;
    let color = match img.color() {
        ImageColor::L8 => ColorType::L8, ImageColor::La8 => ColorType::La8,
        ImageColor::Rgb8 => ColorType::Rgb8, ImageColor::Rgba8 => ColorType::Rgba8,
        ImageColor::L16 => ColorType::L16, ImageColor::La16 => ColorType::La16,
        ImageColor::Rgb16 => ColorType::Rgb16, ImageColor::Rgba16 => ColorType::Rgba16,
        ImageColor::Rgb32F => ColorType::Rgb32F, ImageColor::Rgba32F => ColorType::Rgba32F,
        _ => return None,
    };
    Some(DecodedImage { width: img.width(), height: img.height(), color, bytes: img.into_bytes() })
}

/// The pixels of a texture, ready for upload: size, OpenGL pixel format and
/// bytes.
pub struct TexturePixels {
    pub width: i32,
    pub height: i32,
    pub format: u32,
    pub bytes: Vec<u8>,
}

/// Why an image file gives no texture.
#[derive(Debug, Clone, Copy, PartialEq, Eq, Structural)]
pub enum TextureError {
    /// The file's bytes decode to no image.
    Undecodable,
    /// The image has a colour layout that textures do not support.
    Unsupported(ColorType),
}

/// `r` is the texture made of an image of this size, colour layout and
/// bytes: its size as `i32` (cast as the GPU takes it), the OpenGL format of
/// its colour layout and the same bytes; or the error that the layout is
/// not supported.
pub open spec fn texture_of(
    r: Result<TexturePixels, TextureError>,
    width: u32,
    height: u32,
    color: ColorType,
    bytes: Seq<u8>,
) -> bool {
    match gl_format(color) {
        Some(f) => r matches Ok(p) && p.width == width as i32 && p.height == height as i32 && p.format == f
            && p.bytes@ == bytes,
        None => r == Err::<TexturePixels, TextureError>(TextureError::Unsupported(color)),
    }
}

/// The texture of a decoded image (see `texture_of`).
pub fn texture_pixels(d: DecodedImage) -> (r: Result<TexturePixels, TextureError>)
    ensures
        texture_of(r, d.width, d.height, d.color, d.bytes@),
{
    match texture_format(d.color) {
        Some(format) => Ok(
            TexturePixels {
                width: #[verifier::truncate] (d.width as i32),
                height: #[verifier::truncate] (d.height as i32),
                format,
                bytes: d.bytes,
            },
        ),
        None => Err(TextureError::Unsupported(d.color)),
    }
}

/// The texture of an image file with the extension `ext` and the bytes
/// `data`: `Undecodable` where the image crate decodes nothing, else the
/// texture of the decoded image (see `texture_of`).
pub fn decode_texture(ext: &str, data: &[u8]) -> (r: Result<TexturePixels, TextureError>)
    ensures
        match decoded_image(ext@, data@) {
            None => r == Err::<TexturePixels, TextureError>(TextureError::Undecodable),
            Some((w, h, c, b)) => texture_of(r, w, h, c, b),
        },
{
    match decode_image(ext, data) {
        Some(d) => texture_pixels(d),
        None => Err(TextureError::Undecodable),
    }
}

} // verus!
