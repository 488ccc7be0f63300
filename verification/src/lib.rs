//! A text viewer's logic: the scroll state, the glyph texture atlas, glyph
//! rasterization and the layout of text into textured quads.
pub mod face_bbox;
pub mod font;
pub mod layout;
pub mod rasterize_glyph;
pub mod state;
pub mod texture_atlas;
