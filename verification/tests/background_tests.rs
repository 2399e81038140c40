use std::io::Cursor;

use cat_zzz::background::ImagePixel;
use cat_zzz::background::gray_to_buffer;
use cat_zzz::background::load_background_data;
use cat_zzz::background::place_pixels;

#[test]
fn place_pixels_packs_argb_at_positions() {
    let pixels = vec![
        ImagePixel { x: 0, y: 0, r: 1, g: 2, b: 3, a: 4 },
        ImagePixel { x: 1, y: 1, r: 0xFF, g: 0, b: 0, a: 0xFF },
    ];
    let buffer = place_pixels(2, 2, &pixels);
    assert_eq!(buffer, vec![0x04010203, 0, 0, 0xFFFF0000]);
}

#[test]
fn place_pixels_later_pixel_wins() {
    let pixels = vec![
        ImagePixel { x: 0, y: 0, r: 1, g: 1, b: 1, a: 1 },
        ImagePixel { x: 0, y: 0, r: 9, g: 8, b: 7, a: 6 },
    ];
    let buffer = place_pixels(1, 1, &pixels);
    assert_eq!(buffer, vec![0x06090807]);
}

#[test]
fn gray_levels_pack_into_opaque_gray_colors() {
    let buffer = gray_to_buffer(&vec![0, 0x7F, 0xFF]);
    assert_eq!(buffer, vec![0xFF000000, 0xFF7F7F7F, 0xFFFFFFFF]);
}

#[test]
fn undecodable_bytes_give_no_background() {
    assert!(load_background_data(b"not an image").is_none());
    assert!(load_background_data(&[]).is_none());
}

#[test]
fn zero_width_image_decodes_to_an_empty_buffer() {
    // A farbfeld header may carry a zero dimension; such an image has no
    // pixels and must neither panic nor be mistaken for a decode failure.
    let mut bytes = b"farbfeld".to_vec();
    bytes.extend_from_slice(&0u32.to_be_bytes());
    bytes.extend_from_slice(&2u32.to_be_bytes());

    let bg = load_background_data(&bytes).expect("a zero-width image decodes");
    assert_eq!(bg.width, 0);
    assert_eq!(bg.height, 2);
    assert!(bg.pixels.is_empty());
}

#[test]
fn decoded_image_lands_pixel_for_pixel() {
    // Encode a 2x1 image with two known colors, then load it back.
    let mut img = image::RgbaImage::new(2, 1);
    img.put_pixel(0, 0, image::Rgba([10, 20, 30, 255]));
    img.put_pixel(1, 0, image::Rgba([200, 100, 50, 255]));
    let mut bytes: Vec<u8> = Vec::new();
    img.write_to(&mut Cursor::new(&mut bytes), image::ImageFormat::Png)
        .expect("encoding a small image in memory succeeds");

    let bg = load_background_data(&bytes).expect("the encoded image decodes");
    assert_eq!(bg.width, 2);
    assert_eq!(bg.height, 1);
    assert_eq!(bg.pixels, vec![0xFF0A141E, 0xFFC86432]);
}
