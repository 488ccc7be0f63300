use textview::font::FontFace;
use textview::rasterize_glyph::{glyph_from_bitmap, rasterize_glyph, unpad_bitmap, RasterizeError, LOAD_FLAGS};

const FONT: &str = "/usr/share/fonts/truetype/dejavu/DejaVuSansMono.ttf";

#[test]
fn load_flags_are_default_with_light_hinting() {
    let flags = freetype::face::LoadFlag::DEFAULT | freetype::face::LoadFlag::TARGET_LIGHT;
    assert_eq!(LOAD_FLAGS, flags.bits());
}

#[test]
fn unpad_drops_row_padding() {
    let padded = [1u8, 2, 3, 0, 4, 5, 6, 0];
    assert_eq!(unpad_bitmap(&padded, 3, 2, 4), vec![1, 2, 3, 4, 5, 6]);
}

#[test]
fn unpad_single_row_with_negative_pitch() {
    let padded = [9u8, 8, 7];
    assert_eq!(unpad_bitmap(&padded, 3, 1, -3), vec![9, 8, 7]);
}

#[test]
fn unpad_empty_bitmap() {
    assert_eq!(unpad_bitmap(&[], 0, 5, 0), Vec::<u8>::new());
}

#[test]
fn glyph_from_lcd_bitmap() {
    let padded = [1u8, 2, 3, 4, 5, 6, 0, 0, 7, 8, 9, 10, 11, 12, 0, 0];
    let glyph = glyph_from_bitmap(&padded, 6, 2, 8, -1, 9, 640).unwrap();
    assert_eq!(glyph.width, 2);
    assert_eq!(glyph.height, 2);
    assert_eq!(glyph.pixels, vec![1, 2, 3, 4, 5, 6, 7, 8, 9, 10, 11, 12]);
    assert_eq!(glyph.left_bearing, -1);
    assert_eq!(glyph.top_bearing, 9);
    assert_eq!(glyph.advance, 10);
}

#[test]
fn negative_advance_is_whole_pixels_too() {
    let glyph = glyph_from_bitmap(&[0, 0, 0], 3, 1, 3, 0, 0, -128).unwrap();
    assert_eq!(glyph.advance, -2);
}

#[test]
fn fractional_advance_is_refused() {
    assert_eq!(glyph_from_bitmap(&[0, 0, 0], 3, 1, 3, 0, 0, 641).err(), Some(RasterizeError::AdvanceNotWholePixels));
}

#[test]
fn width_not_three_bytes_per_pixel_is_refused() {
    assert_eq!(glyph_from_bitmap(&[0; 4], 4, 1, 4, 0, 0, 64).err(), Some(RasterizeError::WidthNotMultipleOfThree));
}

#[test]
fn rows_running_backwards_are_refused() {
    assert_eq!(glyph_from_bitmap(&[0; 12], 3, 2, -3, 0, 0, 64).err(), Some(RasterizeError::BitmapLayout));
}

#[test]
fn short_buffer_is_refused() {
    assert_eq!(glyph_from_bitmap(&[0; 5], 3, 2, 3, 0, 0, 64).err(), Some(RasterizeError::BitmapLayout));
}

#[test]
fn negative_byte_count_is_refused() {
    assert_eq!(glyph_from_bitmap(&[0; 5], -3, 2, 3, 0, 0, 64).err(), Some(RasterizeError::BitmapLayout));
}

#[test]
fn layout_is_checked_before_advance_and_width() {
    assert_eq!(glyph_from_bitmap(&[0; 5], 4, 2, 4, 0, 0, 65).err(), Some(RasterizeError::BitmapLayout));
    assert_eq!(glyph_from_bitmap(&[0; 8], 4, 2, 4, 0, 0, 65).err(), Some(RasterizeError::AdvanceNotWholePixels));
}

#[test]
fn rasterizes_a_glyph_of_a_real_font() {
    if !std::path::Path::new(FONT).exists() {
        return;
    }
    let library = freetype::Library::init().unwrap();
    let face = library.new_face(FONT, 0).unwrap();
    face.set_char_size(16 * 64, 0, 72, 0).unwrap();
    let index = face.get_char_index('A' as usize);
    assert_ne!(index, 0);
    let mut face = FontFace::new(face);
    let glyph = rasterize_glyph(index, &mut face).unwrap();
    assert!(glyph.width > 0 && glyph.height > 0);
    assert_eq!(glyph.pixels.len(), (3 * glyph.width * glyph.height) as usize);
    assert!(glyph.advance > 0);
}

#[test]
fn missing_glyph_index_fails_to_load() {
    if !std::path::Path::new(FONT).exists() {
        return;
    }
    let library = freetype::Library::init().unwrap();
    let face = library.new_face(FONT, 0).unwrap();
    face.set_char_size(16 * 64, 0, 72, 0).unwrap();
    let mut face = FontFace::new(face);
    assert_eq!(rasterize_glyph(9_999_999, &mut face).err(), Some(RasterizeError::Load));
}

#[test]
fn rasterizes_a_space_to_an_empty_glyph() {
    if !std::path::Path::new(FONT).exists() {
        return;
    }
    let library = freetype::Library::init().unwrap();
    let face = library.new_face(FONT, 0).unwrap();
    face.set_char_size(16 * 64, 0, 72, 0).unwrap();
    let index = face.get_char_index(' ' as usize);
    let a_index = face.get_char_index('a' as usize);
    let mut face = FontFace::new(face);
    let space = rasterize_glyph(index, &mut face).unwrap();
    assert_eq!(space.height, 0);
    assert!(space.pixels.is_empty());
    assert!(space.advance > 0);
    // the monospace face advances a space as far as a letter
    let a = rasterize_glyph(a_index, &mut face).unwrap();
    assert_eq!(space.advance, a.advance);
}
