//! The FreeType calls this library makes, each with what it promises.
//!
//! A font face and its glyph slot are FreeType's own objects; nothing here
//! looks inside them. What a call returns depends on the font file the face
//! was loaded from, so no call promises a particular value. What the library
//! relies on is how the calls hang together, and `FontFace` keeps a ghost
//! record of it: the glyph index the face gave for each character code asked
//! about, what the glyph slot holds, and every glyph rendered into it.
use vstd::prelude::*;

verus! {

/// A font face loaded by FreeType.
#[verifier::external_type_specification]
#[verifier::external_body]
pub struct ExFace(freetype::Face);

/// An error reported by FreeType.
#[verifier::external_type_specification]
#[verifier::external_body]
pub struct ExFtError(freetype::Error);

/// How FreeType turns a loaded glyph into a bitmap.
#[derive(Copy, Clone, Debug, PartialEq, Eq, Structural)]
pub enum RenderMode {
    /// Anti-aliased, 8 bits per pixel.
    Normal,
    /// Anti-aliased with light hinting.
    Light,
    /// One bit per pixel.
    Mono,
    /// Three bytes (red, green, blue) per pixel, for horizontal LCD screens.
    Lcd,
    /// Three rows per pixel, for vertical LCD screens.
    LcdV,
}

/// What a rendered glyph slot holds: its bitmap (the bytes, the number of
/// bytes of pixel data in a row, the number of rows and the offset from one
/// row to the next), the bitmap's left and top bearings in whole pixels, and
/// the pen advance in 1/64 pixel.
pub ghost struct SlotImage {
    pub buffer: Seq<u8>,
    pub width: i32,
    pub rows: i32,
    pub pitch: i32,
    pub left: i32,
    pub top: i32,
    pub advance_x: i64,
}

/// One successful rendering into the glyph slot: which glyph was loaded, with
/// which load flags, in which mode it was rendered, and what it gave.
pub ghost struct RenderRecord {
    pub glyph_index: u32,
    pub load_flags: i32,
    pub mode: RenderMode,
    pub image: SlotImage,
}

/// What the glyph slot of a face holds.
pub ghost enum SlotState {
    /// Nothing known: no glyph loaded yet.
    Unknown,
    /// Loading a glyph with these load flags failed; what the slot holds is
    /// not known.
    LoadFailed { glyph_index: u32, load_flags: i32 },
    /// A glyph loaded and not rendered yet.
    Loaded { glyph_index: u32, load_flags: i32 },
    /// Rendering the glyph loaded with these load flags in this mode failed;
    /// what the slot holds is not known.
    RenderFailed { glyph_index: u32, load_flags: i32, mode: RenderMode },
    /// A glyph rendered.
    Rendered(RenderRecord),
}

/// The ghost record of a `FontFace`.
pub ghost struct FaceView {
    /// The glyph index the face gave for each character code asked about.
    pub char_indices: Map<usize, u32>,
    /// What the glyph slot holds.
    pub slot: SlotState,
    /// Every rendering into the slot, oldest first.
    pub renders: Seq<RenderRecord>,
    /// The face's bounding box over all its glyphs, in font units, as
    /// `(x_min, y_min, x_max, y_max)`, once asked about.
    pub bbox: Option<(i64, i64, i64, i64)>,
    /// The horizontal and vertical scales of the face's size (`None` when it
    /// has no size), once asked about.
    pub scales: Option<Option<(i64, i64)>>,
}

/// A FreeType face owned by the library, with the ghost record of what has
/// been asked of it. The face is reached only through the calls below, so
/// that the record stays true; in particular its size and character map
/// cannot change while the library owns it.
pub struct FontFace {
    face: freetype::Face,
    char_indices: Ghost<Map<usize, u32>>,
    slot: Ghost<SlotState>,
    renders: Ghost<Seq<RenderRecord>>,
    bbox: Ghost<Option<(i64, i64, i64, i64)>>,
    scales: Ghost<Option<Option<(i64, i64)>>>,
}

impl View for FontFace {
    type V = FaceView;

    closed spec fn view(&self) -> FaceView {
        FaceView {
            char_indices: self.char_indices@,
            slot: self.slot@,
            renders: self.renders@,
            bbox: self.bbox@,
            scales: self.scales@,
        }
    }
}

/// The record of the glyph slot after a rendering.
pub open spec fn rendered(view: FaceView) -> RenderRecord
    recommends
        view.slot is Rendered,
{
    view.slot->Rendered_0
}

impl FontFace {
    /// Takes `face` over, with nothing asked of it yet. A clone of `face`
    /// shares its FreeType face, so none may be kept and used elsewhere while
    /// the library owns it: the record would no longer tell what the face
    /// does.
    pub fn new(face: freetype::Face) -> (r: Self)
        ensures
            r@ == (FaceView {
                char_indices: Map::empty(),
                slot: SlotState::Unknown,
                renders: Seq::empty(),
                bbox: None,
                scales: None,
            }),
    {
        FontFace {
            face,
            char_indices: Ghost(Map::empty()),
            slot: Ghost(SlotState::Unknown),
            renders: Ghost(Seq::empty()),
            bbox: Ghost(None),
            scales: Ghost(None),
        }
    }

    /// Calls `Face::get_char_index`: the glyph index of a character code in
    /// the face (0 for a character the face lacks). Claimed: the face gives
    /// the same index each time it is asked about the same code (the face's
    /// character map cannot change while the library owns it), and the index
    /// is recorded; nothing is claimed of its value, which comes from the font.
    #[verifier::external_body]
    pub(crate) fn char_index(&mut self, charcode: usize) -> (index: u32)
        ensures
            old(self)@.char_indices.contains_key(charcode) ==> index == old(self)@.char_indices[charcode],
            final(self)@ == (FaceView {
                char_indices: old(self)@.char_indices.insert(charcode, index),
                ..old(self)@
            }),
    {
        self.face.get_char_index(charcode)
    }

    /// Calls `Face::load_glyph`, which loads the glyph `glyph_index` into the
    /// glyph slot with the load flags whose bits are `load_flags` (bits
    /// FreeType does not know are dropped). Claimed: on success the slot
    /// holds that glyph, loaded with those flags; on failure the slot's
    /// content is unknown and the failed request is recorded; nothing else
    /// changes. Nothing is claimed of whether it succeeds.
    #[verifier::external_body]
    pub(crate) fn load_glyph(&mut self, glyph_index: u32, load_flags: i32) -> (r: Result<(), freetype::Error>)
        ensures
            final(self)@ == (FaceView {
                slot: if r is Ok {
                    SlotState::Loaded { glyph_index, load_flags }
                } else {
                    SlotState::LoadFailed { glyph_index, load_flags }
                },
                ..old(self)@
            }),
    {
        self.face.load_glyph(glyph_index, freetype::face::LoadFlag::from_bits_truncate(load_flags))
    }

    /// Calls `Face::glyph` and `GlyphSlot::render_glyph`, which renders the
    /// glyph loaded in the slot into the slot's bitmap in the given mode.
    /// Claimed: on success the slot holds some image of that glyph (nothing
    /// is claimed of the image) and the rendering is recorded; on failure the
    /// slot's content is unknown and the failed request is recorded; nothing
    /// else changes. Nothing is claimed of whether it succeeds.
    #[verifier::external_body]
    pub(crate) fn render_glyph(&mut self, mode: RenderMode) -> (r: Result<(), freetype::Error>)
        requires
            old(self)@.slot is Loaded,
        ensures
            final(self)@.char_indices == old(self)@.char_indices,
            final(self)@.bbox == old(self)@.bbox,
            final(self)@.scales == old(self)@.scales,
            r is Ok ==> {
                &&& final(self)@.slot is Rendered
                &&& rendered(final(self)@).glyph_index == old(self)@.slot->Loaded_glyph_index
                &&& rendered(final(self)@).load_flags == old(self)@.slot->Loaded_load_flags
                &&& rendered(final(self)@).mode == mode
                &&& final(self)@.renders == old(self)@.renders.push(rendered(final(self)@))
            },
            r is Err ==> final(self)@.slot == (SlotState::RenderFailed {
                glyph_index: old(self)@.slot->Loaded_glyph_index,
                load_flags: old(self)@.slot->Loaded_load_flags,
                mode,
            }) && final(self)@.renders == old(self)@.renders,
    {
        self.face.glyph().render_glyph(
            match mode {
                RenderMode::Normal => freetype::RenderMode::Normal,
                RenderMode::Light => freetype::RenderMode::Light,
                RenderMode::Mono => freetype::RenderMode::Mono,
                RenderMode::Lcd => freetype::RenderMode::Lcd,
                RenderMode::LcdV => freetype::RenderMode::LcdV,
            },
        )
    }

    /// Calls `Face::glyph`, `GlyphSlot::bitmap` and `Bitmap::width`: the
    /// number of bytes of pixel data in a row of the rendered bitmap, as the
    /// slot records it.
    #[verifier::external_body]
    pub(crate) fn bitmap_width(&self) -> (width: i32)
        requires
            self@.slot is Rendered,
        ensures
            width == rendered(self@).image.width,
    {
        self.face.glyph().bitmap().width()
    }

    /// Calls `Face::glyph`, `GlyphSlot::bitmap` and `Bitmap::rows`: the number
    /// of rows of the rendered bitmap, as the slot records it.
    #[verifier::external_body]
    pub(crate) fn bitmap_rows(&self) -> (rows: i32)
        requires
            self@.slot is Rendered,
        ensures
            rows == rendered(self@).image.rows,
    {
        self.face.glyph().bitmap().rows()
    }

    /// Calls `Face::glyph`, `GlyphSlot::bitmap` and `Bitmap::pitch`: the offset
    /// in bytes from one row of the rendered bitmap to the next, as the slot
    /// records it.
    #[verifier::external_body]
    pub(crate) fn bitmap_pitch(&self) -> (pitch: i32)
        requires
            self@.slot is Rendered,
        ensures
            pitch == rendered(self@).image.pitch,
    {
        self.face.glyph().bitmap().pitch()
    }

    /// Calls `Face::glyph`, `GlyphSlot::bitmap` and `Bitmap::buffer`, and
    /// copies the bytes out: the rendered bitmap's bytes, `|pitch| * rows` of
    /// them (the length `Bitmap::buffer` gives its slice). Only for a bitmap
    /// with rows and a nonzero pitch, whose byte count fits an `i32`: for an
    /// empty bitmap, such as a space's, FreeType leaves the buffer pointer
    /// null, which `Bitmap::buffer` may not turn into a slice.
    #[verifier::external_body]
    pub(crate) fn bitmap_buffer(&self) -> (bytes: Vec<u8>)
        requires
            self@.slot is Rendered,
            rendered(self@).image.rows > 0,
            rendered(self@).image.pitch != 0,
            rendered(self@).image.pitch != i32::MIN,
            abs_i32(rendered(self@).image.pitch) * rendered(self@).image.rows <= i32::MAX,
        ensures
            bytes@ == rendered(self@).image.buffer,
            bytes@.len() == abs_i32(rendered(self@).image.pitch) * rendered(self@).image.rows,
    {
        self.face.glyph().bitmap().buffer().to_vec()
    }

    /// Calls `Face::glyph` and `GlyphSlot::bitmap_left`: the rendered
    /// bitmap's left bearing in whole pixels, as the slot records it.
    #[verifier::external_body]
    pub(crate) fn bitmap_left(&self) -> (left: i32)
        requires
            self@.slot is Rendered,
        ensures
            left == rendered(self@).image.left,
    {
        self.face.glyph().bitmap_left()
    }

    /// Calls `Face::glyph` and `GlyphSlot::bitmap_top`: the rendered bitmap's
    /// top bearing in whole pixels, as the slot records it.
    #[verifier::external_body]
    pub(crate) fn bitmap_top(&self) -> (top: i32)
        requires
            self@.slot is Rendered,
        ensures
            top == rendered(self@).image.top,
    {
        self.face.glyph().bitmap_top()
    }

    /// Calls `Face::glyph` and `GlyphSlot::advance` and gives its horizontal
    /// part: how far the pen moves after the rendered glyph, in 1/64 pixel,
    /// as the slot records it.
    #[verifier::external_body]
    pub(crate) fn advance_x(&self) -> (x: i64)
        requires
            self@.slot is Rendered,
        ensures
            x == rendered(self@).image.advance_x,
    {
        self.face.glyph().advance().x
    }
}

/// The absolute value of an `i32`.
pub open spec fn abs_i32(v: i32) -> int {
    if v < 0 {
        -v
    } else {
        v as int
    }
}

impl FontFace {
    /// Calls `Face::raw` and gives the face's bounding box over all its
    /// glyphs, in font units, as `(x_min, y_min, x_max, y_max)`. Claimed: the
    /// box is the same each time (FreeType sets it when it opens the face),
    /// and it is recorded; nothing is claimed of its values, which come from
    /// the font file.
    #[verifier::external_body]
    pub(crate) fn raw_bbox(&mut self) -> (bbox: (i64, i64, i64, i64))
        ensures
            old(self)@.bbox is Some ==> bbox == old(self)@.bbox->0,
            final(self)@ == (FaceView { bbox: Some(bbox), ..old(self)@ }),
    {
        let bbox = self.face.raw().bbox;
        (bbox.xMin, bbox.yMin, bbox.xMax, bbox.yMax)
    }

    /// Calls `Face::size_metrics` and gives the horizontal and vertical
    /// scales (16.16 fixed point) from font units to 26.6 pixels of the
    /// face's size; `None` when the face has no size. Claimed: the answer is
    /// the same each time (the size cannot change while the library owns the
    /// face), and it is recorded; nothing is claimed of its values.
    #[verifier::external_body]
    pub(crate) fn size_scales(&mut self) -> (scales: Option<(i64, i64)>)
        ensures
            old(self)@.scales is Some ==> scales == old(self)@.scales->0,
            final(self)@ == (FaceView { scales: Some(scales), ..old(self)@ }),
    {
        match self.face.size_metrics() {
            Some(metrics) => Some((metrics.x_scale, metrics.y_scale)),
            None => None,
        }
    }
}

} // verus!
