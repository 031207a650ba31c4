use paper::canvas::{Canvas, Image};
use paper::paper::{draw, Paper, Style};
use paper::render::{apply_border, fill_color, place, tile};

fn image(width: u32, height: u32, pixels: Vec<u32>) -> Image {
    Image::from_pixels(width, height, pixels).unwrap()
}

#[test]
fn new_canvas_is_transparent() {
    let c = Canvas::new(3, 2);
    assert_eq!(c.width, 3);
    assert_eq!(c.height, 2);
    assert_eq!(c.pixels, vec![0u32; 6]);
}

#[test]
fn canvas_too_large_for_memory_is_refused() {
    assert!(Canvas::try_new(u32::MAX, u32::MAX).is_none());
    assert!(Canvas::try_new(4, 4).is_some());
    assert!(Canvas::try_new(0, 7).unwrap().pixels.is_empty());
}

#[test]
fn bytes_are_least_significant_first() {
    let mut c = Canvas::new(2, 1);
    c.pixels = vec![0xFF112233, 0x01020304];
    assert_eq!(c.to_bytes(), vec![0x33, 0x22, 0x11, 0xFF, 0x04, 0x03, 0x02, 0x01]);
}

#[test]
fn picture_needs_one_pixel_per_position() {
    assert!(Image::from_pixels(2, 2, vec![1, 2, 3]).is_none());
    assert!(Image::from_pixels(2, 2, vec![1, 2, 3, 4]).is_some());
}

#[test]
fn solid_color_fills_every_byte_chunk() {
    for (w, h) in [(1u32, 1u32), (3, 5), (16, 9)] {
        let mut c = Canvas::new(w, h);
        fill_color(&mut c, 0xAABBCCDD);
        let bytes = c.to_bytes();
        assert_eq!(bytes.len(), (w * h * 4) as usize);
        for chunk in bytes.chunks(4) {
            assert_eq!(chunk, &0xAABBCCDDu32.to_le_bytes()[..]);
        }
    }
}

#[test]
fn tiles_wrap_around_the_source() {
    let src = image(2, 2, vec![1, 2, 3, 4]);
    let mut c = Canvas::new(5, 3);
    tile(&mut c, &src);
    assert_eq!(
        c.pixels,
        vec![1, 2, 1, 2, 1, 3, 4, 3, 4, 3, 1, 2, 1, 2, 1]
    );
}

#[test]
fn tile_covers_every_pixel_modulo_source() {
    let src = image(3, 2, vec![10, 11, 12, 20, 21, 22]);
    let mut c = Canvas::new(7, 5);
    c.pixels = vec![99; 35];
    tile(&mut c, &src);
    for y in 0..5usize {
        for x in 0..7usize {
            assert_eq!(c.pixels[y * 7 + x], src.pixels[(y % 2) * 3 + x % 3]);
        }
    }
}

#[test]
fn placed_picture_is_clipped_to_canvas() {
    let src = image(3, 3, vec![1, 2, 3, 4, 5, 6, 7, 8, 9]);
    let mut c = Canvas::new(2, 4);
    c.pixels = vec![0xEE; 8];
    place(&mut c, &src);
    assert_eq!(c.pixels, vec![1, 2, 4, 5, 7, 8, 0xEE, 0xEE]);
}

#[test]
fn border_band_and_untouched_interior() {
    let mut c = Canvas::new(6, 5);
    c.pixels = vec![7; 30];
    apply_border(&mut c, 2, 0xFF000000);
    for y in 0..5u32 {
        for x in 0..6u32 {
            let p = c.pixels[(y * 6 + x) as usize];
            let band = x < 2 || x >= 4 || y < 2 || y >= 3;
            if band {
                assert_eq!(p, 0xFF000000);
            } else {
                assert_eq!(p, 7);
            }
        }
    }
    assert_eq!(c.pixels[2 * 6 + 2], 7);
    assert_eq!(c.pixels[2 * 6 + 3], 7);
}

#[test]
fn wide_border_covers_the_whole_canvas() {
    let mut c = Canvas::new(4, 3);
    apply_border(&mut c, 10, 5);
    assert_eq!(c.pixels, vec![5; 12]);
}

#[test]
fn zero_border_changes_nothing() {
    let mut c = Canvas::new(4, 3);
    c.pixels = vec![8; 12];
    apply_border(&mut c, 0, 5);
    assert_eq!(c.pixels, vec![8; 12]);
}

#[test]
fn draw_color_then_border() {
    let mut p = Paper::default();
    p.style(Style::Color(0x11));
    p.border(1, 0x22);
    let mut c = Canvas::new(3, 3);
    draw(&mut c, &p, &None);
    assert_eq!(c.pixels, vec![0x22, 0x22, 0x22, 0x22, 0x11, 0x22, 0x22, 0x22, 0x22]);
}

#[test]
fn border_without_style_leaves_transparent_interior() {
    let mut p = Paper::default();
    p.border(10, 0xFF000000);
    let mut c = Canvas::new(40, 30);
    draw(&mut c, &p, &None);
    for y in 0..30u32 {
        for x in 0..40u32 {
            let p = c.pixels[(y * 40 + x) as usize];
            if x < 10 || x >= 30 || y < 10 || y >= 20 {
                assert_eq!(p, 0xFF000000);
            } else {
                assert_eq!(p, 0);
            }
        }
    }
}

#[test]
fn draw_image_style_places_picture() {
    let mut p = Paper::default();
    p.style(Style::Image(String::from("/pictures/x.png")));
    let mut c = Canvas::new(2, 2);
    draw(&mut c, &p, &Some(image(2, 2, vec![1, 2, 3, 4])));
    assert_eq!(c.pixels, vec![1, 2, 3, 4]);
}

#[test]
fn draw_without_picture_keeps_pixels() {
    let mut p = Paper::default();
    p.style(Style::Directory(String::from("/pictures")));
    let mut c = Canvas::new(2, 2);
    c.pixels = vec![9, 8, 7, 6];
    draw(&mut c, &p, &None);
    assert_eq!(c.pixels, vec![9, 8, 7, 6]);
}

#[test]
fn draw_tiled_with_empty_picture_keeps_pixels() {
    let mut p = Paper::default();
    p.style(Style::Tiled(String::from("/pictures/t.png")));
    let mut c = Canvas::new(2, 2);
    c.pixels = vec![9, 8, 7, 6];
    draw(&mut c, &p, &Some(image(0, 3, vec![])));
    assert_eq!(c.pixels, vec![9, 8, 7, 6]);
    draw(&mut c, &p, &Some(image(1, 1, vec![5])));
    assert_eq!(c.pixels, vec![5, 5, 5, 5]);
}

#[test]
fn paper_accessors() {
    let mut p = Paper::default();
    assert!(!p.is_some());
    assert!(p.border.is_none());
    assert!(p.output.is_none());
    p.style(Style::Color(1));
    assert!(p.is_some());
    p.border(3, 4);
    p.border(5, 6);
    assert_eq!(p.border, Some((5, 6)));
    p.style(Style::Blank);
    assert!(!p.is_some());
}
