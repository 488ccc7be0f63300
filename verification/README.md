# textview

The logic of a small OpenGL text viewer, verified with Verus.

- `src/state.rs`: the scroll position and how window events move it.
- `src/texture_atlas.rs`: the glyph atlas, one glyph per layer of a texture array.
- `src/font.rs`: the FreeType calls the library makes, with what each promises, and `FontFace`,
  a face with a ghost record of the character indices it gave and the glyphs rendered into its slot.
- `src/rasterize_glyph.rs`: rasterizing a glyph and copying its LCD bitmap out of its padded rows.
- `src/face_bbox.rs`: the pixel size of a face's largest glyph.
- `src/layout.rs`: laying the visible lines out as quads, rasterizing missing glyphs first.
- `app/`: the window, the event loop and every OpenGL call, which hand plain values to the library.
