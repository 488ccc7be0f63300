//! The glyph texture atlas: a layered texture with one glyph per layer, and
//! the record of which glyph sits in which layer.
//!
//! The texture itself lives on the graphics card; the atlas keeps its name
//! (`id`), its layer size and capacity, and for each glyph the description
//! that drawing needs.
use std::collections::HashMap;
use vstd::prelude::*;
use vstd::std_specs::hash::obeys_key_model;
use vstd::std_specs::hash::builds_valid_hashers;

verus! {

broadcast use vstd::std_specs::hash::group_hash_axioms;

/// What a glyph rasterizer produces: the glyph's size in pixels, its pixels
/// (three bytes, red, green and blue, per pixel, row after row), where the
/// bitmap stands against the pen, and how far the pen moves after it.
#[derive(Clone, Debug, PartialEq, Eq)]
pub struct RasterizedGlyph {
    pub width: u32,
    pub height: u32,
    pub pixels: Vec<u8>,
    pub left_bearing: i32,
    pub top_bearing: i32,
    pub advance: i32,
}

/// A rasterized glyph as a value: its pixels as a sequence.
pub ghost struct GlyphImage {
    pub width: u32,
    pub height: u32,
    pub pixels: Seq<u8>,
    pub left_bearing: i32,
    pub top_bearing: i32,
    pub advance: i32,
}

impl View for RasterizedGlyph {
    type V = GlyphImage;

    open spec fn view(&self) -> GlyphImage {
        GlyphImage {
            width: self.width,
            height: self.height,
            pixels: self.pixels@,
            left_bearing: self.left_bearing,
            top_bearing: self.top_bearing,
            advance: self.advance,
        }
    }
}

/// What the atlas records of a glyph: its size in pixels, the texture layer
/// that holds it, its bearings and its advance.
#[derive(Copy, Clone, Debug, PartialEq, Eq, Structural)]
pub struct GlyphDescription {
    pub width: u32,
    pub height: u32,
    pub layer: usize,
    pub left_bearing: i32,
    pub top_bearing: i32,
    pub advance: i32,
}

/// The description of `glyph` once it is stored in `layer`.
pub open spec fn describe(glyph: RasterizedGlyph, layer: usize) -> GlyphDescription {
    GlyphDescription {
        width: glyph.width,
        height: glyph.height,
        layer,
        left_bearing: glyph.left_bearing,
        top_bearing: glyph.top_bearing,
        advance: glyph.advance,
    }
}

/// The abstract state of an atlas.
pub ghost struct AtlasView {
    /// The texture's name.
    pub id: u32,
    /// The description of each glyph stored, by glyph index.
    pub glyphs: Map<u32, GlyphDescription>,
    /// The number of layers filled so far.
    pub size: usize,
    /// The number of layers the texture has.
    pub capacity: usize,
    /// A layer's width and height in pixels.
    pub width: i32,
    pub height: i32,
}

impl AtlasView {
    /// The atlas invariant: no more layers filled than there are, every glyph
    /// in a filled layer, and no two glyphs in one layer.
    pub open spec fn wf(self) -> bool {
        &&& self.size <= self.capacity
        &&& self.glyphs.dom().finite()
        &&& forall|g: u32| #[trigger] self.glyphs.contains_key(g) ==> self.glyphs[g].layer < self.size
        &&& forall|g: u32, h: u32|
            #![trigger self.glyphs[g], self.glyphs[h]]
            self.glyphs.contains_key(g) && self.glyphs.contains_key(h) && g != h
                ==> self.glyphs[g].layer != self.glyphs[h].layer
    }

    /// The description of `glyph_index`, if the atlas holds it.
    pub open spec fn lookup(self, glyph_index: u32) -> Option<GlyphDescription> {
        if self.glyphs.contains_key(glyph_index) {
            Some(self.glyphs[glyph_index])
        } else {
            None
        }
    }

    /// The atlas after storing `glyph` under `glyph_index` in the next layer.
    pub open spec fn after_insert(self, glyph_index: u32, glyph: RasterizedGlyph) -> AtlasView {
        AtlasView {
            glyphs: self.glyphs.insert(glyph_index, describe(glyph, self.size)),
            size: (self.size + 1) as usize,
            ..self
        }
    }
}

/// A layered texture of glyphs and the record of what each layer holds.
pub struct TextureAtlas {
    id: u32,
    glyph_dimensions: HashMap<u32, GlyphDescription>,
    size: usize,
    capacity: usize,
    width: i32,
    height: i32,
}

impl View for TextureAtlas {
    type V = AtlasView;

    closed spec fn view(&self) -> AtlasView {
        AtlasView {
            id: self.id,
            glyphs: self.glyph_dimensions@,
            size: self.size,
            capacity: self.capacity,
            width: self.width,
            height: self.height,
        }
    }
}

impl TextureAtlas {
    /// An empty atlas for the texture named `id`, whose `capacity` layers are
    /// `width` by `height` pixels each.
    pub fn new(id: u32, width: i32, height: i32, capacity: usize) -> (atlas: Self)
        ensures
            atlas@.wf(),
            atlas@ == (AtlasView {
                id,
                glyphs: Map::empty(),
                size: 0,
                capacity,
                width,
                height,
            }),
    {
        Self { id, glyph_dimensions: HashMap::new(), size: 0, capacity, width, height }
    }

    /// The texture's name.
    pub fn get_id(&self) -> (id: u32)
        ensures
            id == self@.id,
    {
        self.id
    }

    /// A layer's width in pixels.
    pub fn width(&self) -> (w: i32)
        ensures
            w == self@.width,
    {
        self.width
    }

    /// A layer's height in pixels.
    pub fn height(&self) -> (h: i32)
        ensures
            h == self@.height,
    {
        self.height
    }

    /// The number of layers filled so far.
    pub fn len(&self) -> (n: usize)
        ensures
            n == self@.size,
    {
        self.size
    }

    /// The number of layers the texture has.
    pub fn capacity(&self) -> (n: usize)
        ensures
            n == self@.capacity,
    {
        self.capacity
    }

    /// The description of the glyph `glyph_index`, if the atlas holds it.
    pub fn get(&mut self, glyph_index: u32) -> (description: Option<GlyphDescription>)
        ensures
            final(self)@ == old(self)@,
            description == old(self)@.lookup(glyph_index),
    {
        self.lookup(glyph_index)
    }

    /// The description of the glyph `glyph_index`, if the atlas holds it,
    /// through a shared borrow.
    pub fn lookup(&self, glyph_index: u32) -> (description: Option<GlyphDescription>)
        ensures
            description == self@.lookup(glyph_index),
    {
        proof {
            assert(obeys_key_model::<u32>());
            assert(builds_valid_hashers::<std::hash::RandomState>());
        }
        match self.glyph_dimensions.get(&glyph_index) {
            Some(glyph_description) => Some(*glyph_description),
            None => None,
        }
    }

    /// Stores the description of `rasterized_glyph` under `glyph_index` in
    /// the next free layer, and returns that layer, to which the caller
    /// uploads the glyph's pixels. A glyph stored before under the same index
    /// is replaced; its layer stays filled.
    pub fn insert(&mut self, glyph_index: u32, rasterized_glyph: &RasterizedGlyph) -> (layer: usize)
        requires
            old(self)@.wf(),
            old(self)@.size < old(self)@.capacity,
        ensures
            final(self)@.wf(),
            layer == old(self)@.size,
            final(self)@ == old(self)@.after_insert(glyph_index, *rasterized_glyph),
    {
        proof {
            assert(obeys_key_model::<u32>());
            assert(builds_valid_hashers::<std::hash::RandomState>());
        }
        let layer = self.size;
        let description = GlyphDescription {
            width: rasterized_glyph.width,
            height: rasterized_glyph.height,
            layer,
            left_bearing: rasterized_glyph.left_bearing,
            top_bearing: rasterized_glyph.top_bearing,
            advance: rasterized_glyph.advance,
        };
        self.glyph_dimensions.insert(glyph_index, description);
        self.size = self.size + 1;
        layer
    }
}

/// Reading a glyph back gives what was last stored for it, and storing one
/// glyph leaves every other glyph's description as it was.
pub proof fn lemma_get_after_insert(atlas: AtlasView, glyph_index: u32, glyph: RasterizedGlyph, other: u32)
    requires
        atlas.wf(),
        atlas.size < atlas.capacity,
        other != glyph_index,
    ensures
        atlas.after_insert(glyph_index, glyph).glyphs[glyph_index] == describe(glyph, atlas.size),
        atlas.after_insert(glyph_index, glyph).glyphs.contains_key(other) == atlas.glyphs.contains_key(other),
        atlas.after_insert(glyph_index, glyph).glyphs[other] == atlas.glyphs[other],
{
}

/// Every insertion fills exactly one new layer, and the layer it fills holds
/// no other glyph afterwards.
pub proof fn lemma_insert_takes_fresh_layer(atlas: AtlasView, glyph_index: u32, glyph: RasterizedGlyph, other: u32)
    requires
        atlas.wf(),
        atlas.size < atlas.capacity,
        atlas.glyphs.contains_key(other),
    ensures
        atlas.after_insert(glyph_index, glyph).size == atlas.size + 1,
        atlas.glyphs[other].layer != atlas.size,
        atlas.after_insert(glyph_index, glyph).wf(),
{
    let after = atlas.after_insert(glyph_index, glyph);
    assert forall|g: u32| #[trigger] after.glyphs.contains_key(g) implies after.glyphs[g].layer < after.size by {
        if g != glyph_index {
            assert(atlas.glyphs.contains_key(g));
        }
    }
    assert forall|g: u32, h: u32|
        after.glyphs.contains_key(g) && after.glyphs.contains_key(h) && g != h
            implies #[trigger] after.glyphs[g].layer != #[trigger] after.glyphs[h].layer by {
        if g != glyph_index && h != glyph_index {
            assert(atlas.glyphs[g] == after.glyphs[g]);
            assert(atlas.glyphs[h] == after.glyphs[h]);
        } else if g == glyph_index {
            assert(atlas.glyphs.contains_key(h));
            assert(atlas.glyphs[h] == after.glyphs[h]);
            assert(atlas.glyphs[h].layer < atlas.size);
            assert(after.glyphs[g].layer == atlas.size);
        } else {
            assert(atlas.glyphs.contains_key(g));
            assert(atlas.glyphs[g] == after.glyphs[g]);
            assert(atlas.glyphs[g].layer < atlas.size);
            assert(after.glyphs[h].layer == atlas.size);
        }
    }
}

} // verus!
