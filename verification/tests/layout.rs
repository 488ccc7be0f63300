use textview::font::FontFace;
use textview::layout::{layout_frame, layout_glyphs, visible_line_count, FrameError, Quad};
use textview::texture_atlas::{RasterizedGlyph, TextureAtlas};

fn glyph(width: u32, height: u32, left_bearing: i32, top_bearing: i32, advance: i32) -> RasterizedGlyph {
    RasterizedGlyph { width, height, pixels: vec![0; (3 * width * height) as usize], left_bearing, top_bearing, advance }
}

fn atlas() -> TextureAtlas {
    let mut atlas = TextureAtlas::new(1, 10, 10, 8);
    atlas.insert(1, &glyph(5, 7, 1, 7, 6));
    atlas.insert(2, &glyph(4, 5, -2, 5, 6));
    atlas
}

#[test]
fn visible_lines() {
    assert_eq!(visible_line_count(200, 21), 10);
    assert_eq!(visible_line_count(0, 21), 1);
    assert_eq!(visible_line_count(21, 21), 2);
}

#[test]
fn quads_follow_the_pen() {
    let atlas = atlas();
    let lines = vec![vec![1, 2], vec![2]];
    let quads = layout_glyphs(&lines, &atlas, 10).unwrap();
    assert_eq!(
        quads,
        vec![
            Quad { x: 1, y: 3, width: 5, height: 7, layer: 0 },
            Quad { x: 4, y: 5, width: 4, height: 5, layer: 1 },
            Quad { x: 0, y: 15, width: 4, height: 5, layer: 1 },
        ]
    );
}

#[test]
fn empty_lines_give_no_quads() {
    let atlas = atlas();
    assert_eq!(layout_glyphs(&vec![vec![], vec![]], &atlas, 10), Some(vec![]));
}

#[test]
fn pen_overflow_is_refused() {
    let mut atlas = TextureAtlas::new(1, 10, 10, 8);
    atlas.insert(3, &glyph(1, 1, 1, 0, i32::MAX));
    assert_eq!(layout_glyphs(&vec![vec![3, 3]], &atlas, 10), None);
    assert!(layout_glyphs(&vec![vec![3]], &atlas, 10).is_some());
}

#[test]
fn line_step_overflow_is_refused() {
    let atlas = atlas();
    assert_eq!(layout_glyphs(&vec![vec![1]], &atlas, 0x4000_0000), None);
    assert!(layout_glyphs(&vec![], &atlas, 0x7fff_ffff).is_some());
}

#[test]
fn frame_of_a_real_font() {
    let font = "/usr/share/fonts/truetype/dejavu/DejaVuSansMono.ttf";
    if !std::path::Path::new(font).exists() {
        return;
    }
    let library = freetype::Library::init().unwrap();
    let face = library.new_face(font, 0).unwrap();
    face.set_char_size(16 * 64, 0, 72, 0).unwrap();
    let mut face = FontFace::new(face);
    let mut atlas = TextureAtlas::new(1, 30, 30, 512);
    let lines = vec!["abba".to_string(), "ab".to_string(), "c".to_string()];
    // a window two lines high shows lines 0 and 1 and part of 2
    let frame = layout_frame(&lines, &mut face, 42, 21, &mut atlas).unwrap();
    assert_eq!(frame.glyphs.len(), 3);
    assert_eq!(frame.quads.len(), 7);
    assert_eq!(frame.uploads.len(), 3);
    assert_eq!(frame.uploads[0].layer, 0);
    assert_eq!(frame.uploads[0].glyph_index, frame.glyphs[0][0]);
    assert_eq!(frame.uploads[1].glyph_index, frame.glyphs[0][1]);
    assert_eq!(atlas.len(), 3);
    // a second frame needs no new glyph
    let again = layout_frame(&lines, &mut face, 20, 21, &mut atlas).unwrap();
    assert_eq!(again.glyphs.len(), 1);
    assert_eq!(again.uploads.len(), 0);
    assert_eq!(again.quads, frame.quads[..4].to_vec());
}

#[test]
fn full_atlas_is_refused() {
    let font = "/usr/share/fonts/truetype/dejavu/DejaVuSansMono.ttf";
    if !std::path::Path::new(font).exists() {
        return;
    }
    let library = freetype::Library::init().unwrap();
    let face = library.new_face(font, 0).unwrap();
    face.set_char_size(16 * 64, 0, 72, 0).unwrap();
    let mut face = FontFace::new(face);
    let mut atlas = TextureAtlas::new(1, 30, 30, 1);
    let lines = vec!["ab".to_string()];
    assert_eq!(layout_frame(&lines, &mut face, 42, 21, &mut atlas).err(), Some(FrameError::AtlasFull));
    assert_eq!(atlas.len(), 1);
}

#[test]
fn pen_below_the_last_line_overflowing_is_refused() {
    let font = "/usr/share/fonts/truetype/dejavu/DejaVuSansMono.ttf";
    if !std::path::Path::new(font).exists() {
        return;
    }
    let library = freetype::Library::init().unwrap();
    let face = library.new_face(font, 0).unwrap();
    face.set_char_size(16 * 64, 0, 72, 0).unwrap();
    let mut face = FontFace::new(face);
    let mut atlas = TextureAtlas::new(1, 30, 30, 8);
    let lines = vec!["a".to_string()];
    assert_eq!(layout_frame(&lines, &mut face, 10, 0x7fff_ffff, &mut atlas).err(), Some(FrameError::Overflow));
    // the glyph was rasterized before the layout failed
    assert_eq!(atlas.len(), 1);
}

#[test]
fn frame_without_new_glyphs_keeps_the_atlas() {
    let library = match freetype::Library::init() {
        Ok(library) => library,
        Err(_) => return,
    };
    let font = "/usr/share/fonts/truetype/dejavu/DejaVuSansMono.ttf";
    let face = match library.new_face(font, 0) {
        Ok(face) => face,
        Err(_) => return,
    };
    let mut face = FontFace::new(face);
    let mut atlas = TextureAtlas::new(1, 30, 30, 8);
    let lines: Vec<String> = vec![String::new(), String::new()];
    let frame = layout_frame(&lines, &mut face, 100, 10, &mut atlas).unwrap();
    assert_eq!(frame.glyphs, vec![Vec::<u32>::new(), Vec::new()]);
    assert!(frame.uploads.is_empty() && frame.quads.is_empty());
    assert_eq!(atlas.len(), 0);
}

#[test]
fn frame_with_spaces() {
    let font = "/usr/share/fonts/truetype/dejavu/DejaVuSansMono.ttf";
    if !std::path::Path::new(font).exists() {
        return;
    }
    let library = freetype::Library::init().unwrap();
    let face = library.new_face(font, 0).unwrap();
    face.set_char_size(16 * 64, 0, 72, 0).unwrap();
    let mut face = FontFace::new(face);
    let mut atlas = TextureAtlas::new(1, 30, 30, 512);
    let lines = vec!["    let x = 1;".to_string(), "".to_string(), "  }".to_string()];
    let frame = layout_frame(&lines, &mut face, 100, 21, &mut atlas).unwrap();
    assert_eq!(frame.quads.len(), 17);
    // the glyphs are uploaded once each, in the order they first appear
    let indices: Vec<u32> = frame.uploads.iter().map(|u| u.glyph_index).collect();
    let mut expected: Vec<u32> = Vec::new();
    for line in &frame.glyphs {
        for g in line {
            if !expected.contains(g) {
                expected.push(*g);
            }
        }
    }
    assert_eq!(indices, expected);
    assert_eq!(frame.glyphs[0][0], frame.glyphs[0][1]);
}
