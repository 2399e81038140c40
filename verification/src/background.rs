//! Background buffers: decoding an image's bytes into plain pixels (a
//! trusted call into the image codec) and the verified packing of those
//! pixels into the row-major ARGB canvas the game draws on, plus the
//! grayscale packing used for the monochrome background.

use vstd::prelude::*;
use crate::draw::lemma_pixel_index_bounds;
use crate::draw::lemma_pixel_index_injective;
use crate::draw::pixel_index;

verus! {

/// One decoded pixel: its canvas position and its color channels.
#[derive(Clone, Copy, Debug, PartialEq, Eq, Structural)]
pub struct ImagePixel {
    pub x: u32,
    pub y: u32,
    pub r: u8,
    pub g: u8,
    pub b: u8,
    pub a: u8,
}

/// A decoded image: its dimensions and every pixel with its position.
pub struct DecodedImage {
    pub width: u32,
    pub height: u32,
    pub pixels: Vec<ImagePixel>,
}

/// A background buffer: the canvas dimensions and one packed color per
/// pixel, row-major.
pub struct Background {
    pub width: u32,
    pub height: u32,
    pub pixels: Vec<u32>,
}

/// The canvas packing of a color: alpha, red, green, blue, high byte first.
pub open spec fn pack_argb(r: u8, g: u8, b: u8, a: u8) -> u32 {
    ((a as u32) << 24) | ((r as u32) << 16) | ((g as u32) << 8) | (b as u32)
}

/// The canvas packing of a gray level: the level in all three color
/// channels, fully opaque.
pub open spec fn pack_gray(g: u8) -> u32 {
    (g as u32) | ((g as u32) << 8) | ((g as u32) << 16) | 0xFF000000u32
}

/// The buffer that placing the pixels in order onto an all-zero
/// `width * height` canvas leaves behind: each pixel's packed color at its
/// row-major position, later pixels painting over earlier ones.
pub open spec fn placed_pixels(width: int, height: int, pixels: Seq<ImagePixel>) -> Seq<u32>
    decreases pixels.len(),
{
    if pixels.len() == 0 {
        Seq::new((width * height) as nat, |i: int| 0u32)
    } else {
        let rest = placed_pixels(width, height, pixels.drop_last());
        let p = pixels.last();
        rest.update(pixel_index(p.x as int, p.y as int, width), pack_argb(p.r, p.g, p.b, p.a))
    }
}

/// With every pixel's position in range, the placed buffer is exactly
/// `width * height` words long.
pub proof fn lemma_placed_pixels_len(width: int, height: int, pixels: Seq<ImagePixel>)
    requires
        width >= 0,
        height >= 0,
        forall|i: int|
            0 <= i < pixels.len() ==> (#[trigger] pixels[i]).x < width && pixels[i].y < height,
    ensures
        placed_pixels(width, height, pixels).len() == width * height,
    decreases pixels.len(),
{
    if pixels.len() == 0 {
        assert(width * height >= 0) by (nonlinear_arith)
            requires
                width >= 0,
                height >= 0,
        ;
    } else {
        assert forall|i: int| 0 <= i < pixels.drop_last().len() implies (#[trigger] pixels.drop_last()[i]).x
            < width && pixels.drop_last()[i].y < height by {
            assert(pixels.drop_last()[i] == pixels[i]);
        }
        lemma_placed_pixels_len(width, height, pixels.drop_last());
        let q = pixels.last();
        assert(q == pixels[pixels.len() - 1]);
        lemma_pixel_index_bounds(q.x as int, q.y as int, width, height);
    }
}

/// With one pixel per position — positions in range and pairwise distinct,
/// as a decoded image's are — the placed buffer holds each pixel's packed
/// color at that pixel's row-major position.
pub proof fn lemma_placed_pixels_at(width: int, height: int, pixels: Seq<ImagePixel>, k: int)
    requires
        0 <= k < pixels.len(),
        forall|i: int|
            0 <= i < pixels.len() ==> (#[trigger] pixels[i]).x < width && pixels[i].y < height,
        forall|i: int, j: int|
            0 <= i < j < pixels.len() ==> (#[trigger] pixels[i]).x != (#[trigger] pixels[j]).x
                || pixels[i].y != pixels[j].y,
    ensures
        placed_pixels(width, height, pixels)[pixel_index(
            pixels[k].x as int,
            pixels[k].y as int,
            width,
        )] == pack_argb(pixels[k].r, pixels[k].g, pixels[k].b, pixels[k].a),
    decreases pixels.len(),
{
    let p = pixels[k];
    let last = pixels.last();
    assert(last == pixels[pixels.len() - 1]);
    lemma_pixel_index_bounds(p.x as int, p.y as int, width, height);
    lemma_pixel_index_bounds(last.x as int, last.y as int, width, height);
    assert forall|i: int| 0 <= i < pixels.drop_last().len() implies (#[trigger] pixels.drop_last()[i]).x
        < width && pixels.drop_last()[i].y < height by {
        assert(pixels.drop_last()[i] == pixels[i]);
    }
    lemma_placed_pixels_len(width, height, pixels.drop_last());
    if k == pixels.len() - 1 {
    } else {
        if pixel_index(p.x as int, p.y as int, width) == pixel_index(
            last.x as int,
            last.y as int,
            width,
        ) {
            lemma_pixel_index_injective(
                p.x as int,
                p.y as int,
                last.x as int,
                last.y as int,
                width,
            );
            assert(false);
        }
        assert forall|i: int, j: int| 0 <= i < j < pixels.drop_last().len() implies (
        #[trigger] pixels.drop_last()[i]).x != (#[trigger] pixels.drop_last()[j]).x
            || pixels.drop_last()[i].y != pixels.drop_last()[j].y by {
            assert(pixels.drop_last()[i] == pixels[i]);
            assert(pixels.drop_last()[j] == pixels[j]);
        }
        lemma_placed_pixels_at(width, height, pixels.drop_last(), k);
        assert(pixels.drop_last()[k] == pixels[k]);
    }
}

/// What decoding an image's bytes yields: `None` on undecodable bytes,
/// otherwise the image's dimensions and pixels. Decoding is a function of
/// the bytes alone, so the result only gets this name; `decode_image`
/// states the structural facts that hold of it.
pub uninterp spec fn decoded_image(data: Seq<u8>) -> Option<DecodedImage>;

/// Relies on `image::load_from_memory` and `GenericImageView::get_pixel`:
/// a decoded image reports its dimensions, and `get_pixel` gives the color
/// at any position inside them. The body reads every such position once,
/// row by row, so the pixel list has `width * height` entries whose
/// positions are in range and pairwise distinct; an image with a zero
/// dimension has no positions and an empty list.
#[verifier::external_body]
fn decode_image(data: &[u8]) -> (r: Option<DecodedImage>)
    ensures
        r == decoded_image(data@),
        r matches Some(img) ==> img.pixels@.len() == img.width * img.height && forall|i: int|
            0 <= i < img.pixels@.len() ==> (#[trigger] img.pixels@[i]).x < img.width
                && img.pixels@[i].y < img.height,
        r matches Some(img) ==> forall|i: int, j: int|
            0 <= i < j < img.pixels@.len() ==> (#[trigger] img.pixels@[i]).x != (
            #[trigger] img.pixels@[j]).x || img.pixels@[i].y != img.pixels@[j].y,
{
    let img = match image::load_from_memory(data) {
        Ok(img) => img,
        Err(_) => return None,
    };
    let (width, height) = image::GenericImageView::dimensions(&img);
    let mut pixels = Vec::new();
    for y in 0..height {
        for x in 0..width {
            let image::Rgba([r, g, b, a]) = image::GenericImageView::get_pixel(&img, x, y);
            pixels.push(ImagePixel { x, y, r, g, b, a });
        }
    }
    Some(DecodedImage { width, height, pixels })
}

/// Packs decoded pixels onto an all-zero canvas of the given dimensions,
/// each at its row-major position.
pub fn place_pixels(width: u32, height: u32, pixels: &Vec<ImagePixel>) -> (r: Vec<u32>)
    requires
        width * height <= usize::MAX,
        forall|i: int|
            0 <= i < pixels@.len() ==> (#[trigger] pixels@[i]).x < width && pixels@[i].y < height,
    ensures
        r@ == placed_pixels(width as int, height as int, pixels@),
        r@.len() == width * height,
{
    let total: usize = (width as usize) * (height as usize);
    let mut buffer: Vec<u32> = Vec::new();
    while buffer.len() < total
        invariant
            buffer@.len() <= total,
            total == width * height,
            forall|i: int| 0 <= i < buffer@.len() ==> buffer@[i] == 0u32,
        decreases total - buffer@.len(),
    {
        buffer.push(0);
    }
    proof {
        assert(buffer@ =~= Seq::new((width as int * height as int) as nat, |i: int| 0u32));
        assert(buffer@ == placed_pixels(width as int, height as int, pixels@.take(0)));
    }
    let mut i: usize = 0;
    while i < pixels.len()
        invariant
            i <= pixels@.len(),
            buffer@.len() == width * height,
            width * height <= usize::MAX,
            forall|j: int|
                0 <= j < pixels@.len() ==> (#[trigger] pixels@[j]).x < width && pixels@[j].y < height,
            buffer@ == placed_pixels(width as int, height as int, pixels@.take(i as int)),
        decreases pixels@.len() - i,
    {
        let p = pixels[i];
        proof {
            lemma_pixel_index_bounds(p.x as int, p.y as int, width as int, height as int);
            assert(p.y as int * width as int <= p.y as int * width as int + p.x as int);
            assert(pixels@.take(i as int + 1).drop_last() =~= pixels@.take(i as int));
            assert(pixels@.take(i as int + 1).last() == pixels@[i as int]);
        }
        let idx: usize = (p.y as u64 * width as u64 + p.x as u64) as usize;
        buffer[idx] = ((p.a as u32) << 24) | ((p.r as u32) << 16) | ((p.g as u32) << 8) | (p.b as u32);
        i = i + 1;
    }
    proof {
        assert(pixels@.take(pixels@.len() as int) =~= pixels@);
    }
    buffer
}

/// Decodes an image's bytes and packs its pixels into a canvas buffer.
/// Returns `None` exactly when the bytes are not a decodable image;
/// otherwise the buffer holds the decoded pixels placed at their
/// positions, as `placed_pixels` states. The decoded pixel list is also
/// handed on in the contract: one pixel per position, positions in range
/// and pairwise distinct, so `lemma_placed_pixels_at` gives the buffer's
/// word at each decoded position.
pub fn load_background_data(image_data: &[u8]) -> (r: Option<Background>)
    ensures
        r is Some <==> decoded_image(image_data@) is Some,
        r matches Some(bg) ==> decoded_image(image_data@) matches Some(img) && bg.width == img.width
            && bg.height == img.height && bg.pixels@.len() == bg.width * bg.height
            && bg.pixels@ == placed_pixels(img.width as int, img.height as int, img.pixels@)
            && img.pixels@.len() == img.width * img.height
            && (forall|i: int|
            0 <= i < img.pixels@.len() ==> (#[trigger] img.pixels@[i]).x < img.width
                && img.pixels@[i].y < img.height)
            && (forall|i: int, j: int|
            0 <= i < j < img.pixels@.len() ==> (#[trigger] img.pixels@[i]).x != (
            #[trigger] img.pixels@[j]).x || img.pixels@[i].y != img.pixels@[j].y),
{
    match decode_image(image_data) {
        None => None,
        Some(img) => {
            let n = img.pixels.len();
            proof {
                assert(img.width * img.height == n);
            }
            let bg_pixels = place_pixels(img.width, img.height, &img.pixels);
            Some(Background { width: img.width, height: img.height, pixels: bg_pixels })
        },
    }
}

/// Packs gray levels into canvas colors, one for one: the monochrome
/// background buffer.
pub fn gray_to_buffer(gray: &Vec<u8>) -> (r: Vec<u32>)
    ensures
        r@.len() == gray@.len(),
        forall|i: int| 0 <= i < gray@.len() ==> r@[i] == pack_gray(#[trigger] gray@[i]),
{
    let mut buffer: Vec<u32> = Vec::new();
    let mut i: usize = 0;
    while i < gray.len()
        invariant
            i <= gray@.len(),
            buffer@.len() == i,
            forall|j: int| 0 <= j < i ==> buffer@[j] == pack_gray(#[trigger] gray@[j]),
        decreases gray@.len() - i,
    {
        let g = gray[i];
        buffer.push((g as u32) | ((g as u32) << 8) | ((g as u32) << 16) | 0xFF000000u32);
        i = i + 1;
    }
    buffer
}

} // verus!
