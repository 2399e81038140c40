//! Compositing onto a row-major ARGB canvas: the player square, the
//! raindrop sprites, and rasterized text pixels. Every function states
//! exactly which pixels it paints and that every other pixel keeps its
//! previous color.

use vstd::prelude::*;
use crate::drops::Raindrop;

verus! {

/// Color of the player square (opaque red).
pub const COLOR_PLAYER: u32 = 0xFFFF0000;

/// Color of a raindrop sprite (opaque white).
pub const COLOR_DROP: u32 = 0xFFFFFFFF;

/// Row-major index of the pixel at column `px`, row `py` on a canvas
/// `width` columns wide.
pub open spec fn pixel_index(px: int, py: int, width: int) -> int {
    py * width + px
}

/// Whether the pixel at (`px`, `py`) lies in the square whose top-left
/// corner is (`x`, `y`) and whose edge length is `size`.
pub open spec fn in_square(px: int, py: int, x: int, y: int, size: int) -> bool {
    x <= px < x + size && y <= py < y + size
}

/// Distinct in-range columns or distinct rows give distinct row-major
/// indices.
pub(crate) proof fn lemma_pixel_index_injective(px1: int, py1: int, px2: int, py2: int, width: int)
    by (nonlinear_arith)
    requires
        0 <= px1 < width,
        0 <= px2 < width,
        py1 * width + px1 == py2 * width + px2,
    ensures
        px1 == px2,
        py1 == py2,
{
}

/// The row-major index of an in-canvas pixel lies inside the buffer.
pub(crate) proof fn lemma_pixel_index_bounds(px: int, py: int, width: int, height: int)
    by (nonlinear_arith)
    requires
        0 <= px < width,
        0 <= py < height,
    ensures
        0 <= py * width + px < width * height,
{
}

/// Paints `color` over every pixel of the given square that lies on the
/// canvas; every other pixel keeps its color. The square may stick out past
/// any canvas edge: the part outside is simply not drawn.
fn paint_square(buffer: &mut Vec<u32>, width: u32, height: u32, x: u32, y: u32, size: u32, color: u32)
    requires
        old(buffer)@.len() == width * height,
    ensures
        final(buffer)@.len() == old(buffer)@.len(),
        forall|px: int, py: int|
            0 <= px < width && 0 <= py < height ==> #[trigger] final(buffer)@[pixel_index(px, py, width as int)]
                == if in_square(px, py, x as int, y as int, size as int) {
                    color
                } else {
                    old(buffer)@[pixel_index(px, py, width as int)]
                },
{
    let ghost buf0 = buffer@;
    let _canvas_len = buffer.len();
    let mut dy: u32 = 0;
    while dy < size
        invariant
            dy <= size,
            buffer@.len() == buf0.len(),
            buf0.len() == width * height,
            width * height <= usize::MAX,
            forall|px: int, py: int|
                0 <= px < width && 0 <= py < height ==> #[trigger] buffer@[pixel_index(px, py, width as int)]
                    == if in_square(px, py, x as int, y as int, size as int) && py < y + dy {
                        color
                    } else {
                        buf0[pixel_index(px, py, width as int)]
                    },
        decreases size - dy,
    {
        let mut dx: u32 = 0;
        while dx < size
            invariant
                dx <= size,
                dy < size,
                buffer@.len() == buf0.len(),
                buf0.len() == width * height,
                width * height <= usize::MAX,
                forall|px: int, py: int|
                    0 <= px < width && 0 <= py < height ==> #[trigger] buffer@[pixel_index(px, py, width as int)]
                        == if in_square(px, py, x as int, y as int, size as int)
                            && (py < y + dy || (py == y + dy && px < x + dx)) {
                            color
                        } else {
                            buf0[pixel_index(px, py, width as int)]
                        },
            decreases size - dx,
        {
            let px: u64 = x as u64 + dx as u64;
            let py: u64 = y as u64 + dy as u64;
            if px < width as u64 && py < height as u64 {
                proof {
                    lemma_pixel_index_bounds(px as int, py as int, width as int, height as int);
                    assert(py as int * width as int <= py as int * width as int + px as int);
                }
                let idx: usize = (py * width as u64 + px) as usize;
                buffer[idx] = color;
                proof {
                    assert forall|qx: int, qy: int|
                        0 <= qx < width && 0 <= qy < height implies #[trigger] buffer@[pixel_index(qx, qy, width as int)]
                            == if in_square(qx, qy, x as int, y as int, size as int)
                                && (qy < y + dy || (qy == y + dy && qx < x + dx + 1)) {
                                color
                            } else {
                                buf0[pixel_index(qx, qy, width as int)]
                            } by {
                        lemma_pixel_index_bounds(qx, qy, width as int, height as int);
                        if pixel_index(qx, qy, width as int) == idx {
                            lemma_pixel_index_injective(qx, qy, px as int, py as int, width as int);
                        }
                    }
                }
            }
            dx = dx + 1;
        }
        dy = dy + 1;
    }
}

/// Draws the player square in `COLOR_PLAYER` at (`x`, `y`) with edge
/// `size`, clipped to the canvas; every pixel outside the square keeps its
/// previous color.
pub fn draw_square(buffer: &mut Vec<u32>, width: u32, height: u32, x: u32, y: u32, size: u32)
    requires
        old(buffer)@.len() == width * height,
    ensures
        final(buffer)@.len() == old(buffer)@.len(),
        forall|px: int, py: int|
            0 <= px < width && 0 <= py < height ==> #[trigger] final(buffer)@[pixel_index(px, py, width as int)]
                == if in_square(px, py, x as int, y as int, size as int) {
                    COLOR_PLAYER
                } else {
                    old(buffer)@[pixel_index(px, py, width as int)]
                },
{
    paint_square(buffer, width, height, x, y, size, COLOR_PLAYER);
}

/// One rasterized text pixel: a canvas position (possibly off-canvas, as
/// glyph bounding boxes may stick out) and the glyph's coverage there,
/// already scaled to `0..=255`.
#[derive(Clone, Copy, Debug, PartialEq, Eq, Structural)]
pub struct TextPixel {
    /// Column on the canvas; may be negative.
    pub px: i32,
    /// Row on the canvas; may be negative.
    pub py: i32,
    /// Glyph coverage scaled to `0..=255`.
    pub alpha: u8,
}

/// The white text color with the given coverage in its three color
/// channels, fully opaque.
pub open spec fn text_color(alpha: u8) -> u32 {
    0xFF000000u32 | ((alpha as u32) << 16) | ((alpha as u32) << 8) | (alpha as u32)
}

/// The buffer after overlaying the text pixels in order: each in-canvas
/// pixel is painted with its coverage color, later pixels painting over
/// earlier ones; off-canvas pixels are dropped.
pub open spec fn with_text_pixels(buf: Seq<u32>, width: int, height: int, pixels: Seq<TextPixel>) -> Seq<u32>
    decreases pixels.len(),
{
    if pixels.len() == 0 {
        buf
    } else {
        let rest = with_text_pixels(buf, width, height, pixels.drop_last());
        let p = pixels.last();
        if 0 <= p.px < width && 0 <= p.py < height {
            rest.update(pixel_index(p.px as int, p.py as int, width), text_color(p.alpha))
        } else {
            rest
        }
    }
}

/// Overlays rasterized text pixels onto the canvas in order, painting each
/// in-canvas pixel with the opaque white color weighted by its coverage.
pub fn overlay_text_pixels(buffer: &mut Vec<u32>, width: u32, height: u32, pixels: &Vec<TextPixel>)
    requires
        old(buffer)@.len() == width * height,
    ensures
        final(buffer)@ == with_text_pixels(old(buffer)@, width as int, height as int, pixels@),
        final(buffer)@.len() == old(buffer)@.len(),
{
    let ghost buf0 = buffer@;
    let _canvas_len = buffer.len();
    let mut i: usize = 0;
    while i < pixels.len()
        invariant
            i <= pixels@.len(),
            buffer@.len() == buf0.len(),
            buf0.len() == width * height,
            width * height <= usize::MAX,
            buffer@ == with_text_pixels(buf0, width as int, height as int, pixels@.take(i as int)),
        decreases pixels@.len() - i,
    {
        let p = pixels[i];
        proof {
            assert(pixels@.take(i as int + 1).drop_last() =~= pixels@.take(i as int));
            assert(pixels@.take(i as int + 1).last() == pixels@[i as int]);
        }
        if p.px >= 0 && p.py >= 0 && (p.px as u64) < width as u64 && (p.py as u64) < height as u64 {
            proof {
                lemma_pixel_index_bounds(p.px as int, p.py as int, width as int, height as int);
                assert(p.py as int * width as int <= p.py as int * width as int + p.px as int);
            }
            let idx: usize = (p.py as u64 * width as u64 + p.px as u64) as usize;
            buffer[idx] = 0xFF000000u32 | ((p.alpha as u32) << 16) | ((p.alpha as u32) << 8) | (p.alpha as u32);
        }
        i = i + 1;
    }
    proof {
        assert(pixels@.take(pixels@.len() as int) =~= pixels@);
    }
}

/// Draws the drop's `DROP_SIZE` by `DROP_SIZE` sprite in `COLOR_DROP` at
/// its position, clipped to the canvas; every pixel outside the sprite
/// keeps its previous color.
pub fn draw_raindrop(buffer: &mut Vec<u32>, width: u32, height: u32, raindrop: &Raindrop)
    requires
        old(buffer)@.len() == width * height,
    ensures
        final(buffer)@.len() == old(buffer)@.len(),
        forall|px: int, py: int|
            0 <= px < width && 0 <= py < height ==> #[trigger] final(buffer)@[pixel_index(px, py, width as int)]
                == if in_square(px, py, raindrop.x as int, raindrop.y as int, crate::DROP_SIZE as int) {
                    COLOR_DROP
                } else {
                    old(buffer)@[pixel_index(px, py, width as int)]
                },
{
    paint_square(buffer, width, height, raindrop.x, raindrop.y, crate::DROP_SIZE, COLOR_DROP);
}

} // verus!
