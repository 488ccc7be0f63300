use textview::face_bbox::{bbox_from_metrics, bbox_pixels, face_bbox};
use textview::font::FontFace;

#[test]
fn bbox_in_pixels() {
    // 2000 font units at a scale of half a 26.6 pixel per unit: 1000/64 pixels
    assert_eq!(bbox_pixels(-100, -500, 1900, 1500, 32768, 32768), (15, 15));
}

#[test]
fn bbox_rounds_toward_zero() {
    assert_eq!(bbox_pixels(0, 0, 127, 128, 65536, 65536), (1, 2));
    assert_eq!(bbox_pixels(100, 0, 0, 0, 32768, 1), (0, 0));
}

#[test]
fn negative_extent_wraps_as_u32() {
    assert_eq!(bbox_pixels(10000, 0, 0, 64, 32768, 65536), (4294967218, 1));
}

#[test]
fn bbox_of_a_real_font() {
    let font = "/usr/share/fonts/truetype/dejavu/DejaVuSansMono.ttf";
    if !std::path::Path::new(font).exists() {
        return;
    }
    let library = freetype::Library::init().unwrap();
    let face = library.new_face(font, 0).unwrap();
    face.set_char_size(16 * 64, 0, 72, 0).unwrap();
    let mut face = FontFace::new(face);
    let (width, height) = face_bbox(&mut face).unwrap();
    // the box and the scales are read the same way each time
    assert_eq!(face_bbox(&mut face), Some((width, height)));
    assert!(width > 0 && width < 100);
    assert!(height > 0 && height < 100);
}

#[test]
fn bbox_from_metrics_needs_a_size() {
    assert_eq!(bbox_from_metrics(-100, -500, 1900, 1500, None), None);
    assert_eq!(bbox_from_metrics(-100, -500, 1900, 1500, Some((32768, 32768))), Some((15, 15)));
}

#[test]
fn bbox_from_metrics_refuses_overflow() {
    assert_eq!(bbox_from_metrics(i64::MIN, 0, 1, 0, Some((1, 1))), None);
    assert_eq!(bbox_from_metrics(0, 0, i64::MAX, 1, Some((2, 1))), None);
    assert_eq!(bbox_from_metrics(0, 0, 1, i64::MAX, Some((1, 2))), None);
}
