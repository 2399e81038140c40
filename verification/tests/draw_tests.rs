use cat_zzz::DROP_SIZE;
use cat_zzz::draw::TextPixel;
use cat_zzz::draw::draw_raindrop;
use cat_zzz::draw::draw_square;
use cat_zzz::draw::overlay_text_pixels;
use cat_zzz::drops::Raindrop;

#[test]
fn test_draw_raindrop() {
    let width = 10;
    let height = 10;
    let mut buffer = vec![0xFFFFFFFF; (width * height) as usize];

    let raindrop = Raindrop { x: 3, y: 3, last_update: 0, start_time: 0 };

    draw_raindrop(&mut buffer, width, height, &raindrop);

    // Check if the raindrop was drawn at the correct position
    for y in 3..(3 + DROP_SIZE) {
        for x in 3..(3 + DROP_SIZE) {
            assert_eq!(buffer[(y * width + x) as usize], 0xFFFFFFFF);
        }
    }
}

#[test]
fn test_draw_square() {
    let width = 10;
    let height = 10;
    let mut buffer = vec![0xFFFFFFFF; (width * height) as usize];

    // Draw a 2x2 red square at (3, 3)
    draw_square(&mut buffer, width, height, 3, 3, 2);

    // Check if the square was drawn at the correct position
    for y in 3..5 {
        for x in 3..5 {
            assert_eq!(buffer[(y * width + x) as usize], 0xFFFF0000);
        }
    }
}

#[test]
fn draw_raindrop_paints_exactly_its_block() {
    let width = 10u32;
    let height = 10u32;
    let mut buffer = vec![0xFF000000u32; (width * height) as usize];
    let raindrop = Raindrop { x: 3, y: 3, last_update: 0, start_time: 0 };

    draw_raindrop(&mut buffer, width, height, &raindrop);

    for y in 0..height {
        for x in 0..width {
            let inside = x >= 3 && x < 3 + DROP_SIZE && y >= 3 && y < 3 + DROP_SIZE;
            let expected = if inside { 0xFFFFFFFFu32 } else { 0xFF000000u32 };
            assert_eq!(buffer[(y * width + x) as usize], expected);
        }
    }
}

#[test]
fn draw_square_paints_exactly_its_block() {
    let width = 10u32;
    let height = 10u32;
    let mut buffer = vec![0xFF000000u32; (width * height) as usize];

    draw_square(&mut buffer, width, height, 3, 3, 2);

    for y in 0..height {
        for x in 0..width {
            let inside = (3..5).contains(&x) && (3..5).contains(&y);
            let expected = if inside { 0xFFFF0000u32 } else { 0xFF000000u32 };
            assert_eq!(buffer[(y * width + x) as usize], expected);
        }
    }
}

#[test]
fn draw_clips_at_the_canvas_edge() {
    let width = 4u32;
    let height = 4u32;
    let mut buffer = vec![0u32; (width * height) as usize];

    // A 3x3 square at (2, 2) only fits in its top-left 2x2 corner.
    draw_square(&mut buffer, width, height, 2, 2, 3);

    for y in 0..height {
        for x in 0..width {
            let inside = x >= 2 && y >= 2;
            let expected = if inside { 0xFFFF0000u32 } else { 0u32 };
            assert_eq!(buffer[(y * width + x) as usize], expected);
        }
    }
}

#[test]
fn text_pixels_paint_in_bounds_only_and_in_order() {
    let width = 4u32;
    let height = 2u32;
    let mut buffer = vec![0u32; (width * height) as usize];
    let pixels = vec![
        TextPixel { px: 0, py: 0, alpha: 255 },
        TextPixel { px: -1, py: 0, alpha: 255 },
        TextPixel { px: 0, py: 5, alpha: 255 },
        TextPixel { px: 2, py: 1, alpha: 0 },
        TextPixel { px: 0, py: 0, alpha: 16 },
    ];

    overlay_text_pixels(&mut buffer, width, height, &pixels);

    // The later alpha-16 pixel painted over the first one.
    assert_eq!(buffer[0], 0xFF101010);
    assert_eq!(buffer[(1 * width + 2) as usize], 0xFF000000);
    // Everything else kept its color.
    for i in [1usize, 2, 3, 4, 5, 7] {
        assert_eq!(buffer[i], 0);
    }
}
