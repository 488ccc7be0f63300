use textview::texture_atlas::{GlyphDescription, RasterizedGlyph, TextureAtlas};

fn glyph(width: u32, height: u32, advance: i32) -> RasterizedGlyph {
    RasterizedGlyph {
        width,
        height,
        pixels: vec![7; (3 * width * height) as usize],
        left_bearing: 1,
        top_bearing: 10,
        advance,
    }
}

#[test]
fn new_atlas_is_empty() {
    let mut atlas = TextureAtlas::new(5, 12, 20, 512);
    assert_eq!(atlas.get_id(), 5);
    assert_eq!(atlas.width(), 12);
    assert_eq!(atlas.height(), 20);
    assert_eq!(atlas.len(), 0);
    assert_eq!(atlas.capacity(), 512);
    assert_eq!(atlas.get(65), None);
}

#[test]
fn insert_then_get() {
    let mut atlas = TextureAtlas::new(1, 12, 20, 4);
    let layer = atlas.insert(65, &glyph(8, 11, 9));
    assert_eq!(layer, 0);
    assert_eq!(
        atlas.get(65),
        Some(GlyphDescription { width: 8, height: 11, layer: 0, left_bearing: 1, top_bearing: 10, advance: 9 })
    );
    assert_eq!(atlas.len(), 1);
}

#[test]
fn each_insert_takes_the_next_layer() {
    let mut atlas = TextureAtlas::new(1, 12, 20, 4);
    assert_eq!(atlas.insert(65, &glyph(8, 11, 9)), 0);
    assert_eq!(atlas.insert(66, &glyph(7, 11, 9)), 1);
    assert_eq!(atlas.insert(67, &glyph(6, 11, 9)), 2);
    assert_eq!(atlas.get(66).unwrap().layer, 1);
    assert_eq!(atlas.get(65).unwrap().width, 8);
    assert_eq!(atlas.lookup(67).unwrap().layer, 2);
    assert_eq!(atlas.get(68), None);
}

#[test]
fn inserting_again_replaces_and_uses_a_new_layer() {
    let mut atlas = TextureAtlas::new(1, 12, 20, 4);
    atlas.insert(65, &glyph(8, 11, 9));
    let layer = atlas.insert(65, &glyph(4, 5, 6));
    assert_eq!(layer, 1);
    assert_eq!(
        atlas.get(65),
        Some(GlyphDescription { width: 4, height: 5, layer: 1, left_bearing: 1, top_bearing: 10, advance: 6 })
    );
    assert_eq!(atlas.len(), 2);
}
