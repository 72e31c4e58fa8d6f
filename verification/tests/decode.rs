use ggl::decode::{decode_texture, texture_pixels, DecodedImage, TextureError};
use ggl::loaders::{ColorType, GL_RED, GL_RGB, GL_RGBA};
use std::io::Cursor;

fn png_of(img: image::DynamicImage) -> Vec<u8> {
    let mut buf: Vec<u8> = Vec::new();
    img.write_to(&mut Cursor::new(&mut buf), image::ImageOutputFormat::Png).unwrap();
    buf
}

#[test]
fn rgb_png_decodes_to_rgb_texture() {
    let img = image::RgbImage::from_raw(2, 1, vec![255, 0, 255, 1, 2, 3]).unwrap();
    let data = png_of(image::DynamicImage::ImageRgb8(img));
    let px = decode_texture("png", &data).ok().unwrap();
    assert_eq!((px.width, px.height, px.format), (2, 1, GL_RGB));
    assert_eq!(px.bytes, vec![255, 0, 255, 1, 2, 3]);
    // The extension is matched without regard to case.
    assert_eq!(decode_texture("PNG", &data).ok().unwrap().bytes, vec![255, 0, 255, 1, 2, 3]);
}

#[test]
fn grey_and_rgba_pngs_get_their_formats() {
    let grey = image::GrayImage::from_raw(1, 2, vec![7, 9]).unwrap();
    let px = decode_texture("png", &png_of(image::DynamicImage::ImageLuma8(grey))).ok().unwrap();
    assert_eq!((px.width, px.height, px.format, px.bytes), (1, 2, GL_RED, vec![7, 9]));

    let rgba = image::RgbaImage::from_raw(1, 1, vec![1, 2, 3, 4]).unwrap();
    let px = decode_texture("png", &png_of(image::DynamicImage::ImageRgba8(rgba))).ok().unwrap();
    assert_eq!((px.width, px.height, px.format, px.bytes), (1, 1, GL_RGBA, vec![1, 2, 3, 4]));
}

#[test]
fn unsupported_layout_and_undecodable_bytes() {
    let grey_alpha = image::GrayAlphaImage::from_raw(1, 1, vec![1, 2]).unwrap();
    let data = png_of(image::DynamicImage::ImageLumaA8(grey_alpha));
    assert_eq!(decode_texture("png", &data).err(), Some(TextureError::Unsupported(ColorType::La8)));
    assert_eq!(decode_texture("png", &[1, 2, 3]).err(), Some(TextureError::Undecodable));
    assert_eq!(decode_texture("txt", &data).err(), Some(TextureError::Undecodable));
}

#[test]
fn decoded_image_to_pixels() {
    let d = DecodedImage { width: 3, height: 4, color: ColorType::Rgb8, bytes: vec![5; 36] };
    let px = texture_pixels(d).ok().unwrap();
    assert_eq!((px.width, px.height, px.format, px.bytes.len()), (3, 4, GL_RGB, 36));
    let d = DecodedImage { width: 1, height: 1, color: ColorType::Rgb16, bytes: vec![0; 6] };
    assert_eq!(texture_pixels(d).err(), Some(TextureError::Unsupported(ColorType::Rgb16)));
}
