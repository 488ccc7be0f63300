//! Rasterizing one glyph of a face for the atlas: FreeType loads and renders
//! it for an LCD screen, and the bitmap's rows are copied out without their
//! padding.
use crate::font::{abs_i32, rendered, FaceView, FontFace, RenderMode, SlotImage, SlotState};
use crate::texture_atlas::{GlyphImage, RasterizedGlyph};
use vstd::arithmetic::div_mod::lemma_fundamental_div_mod_converse;
use vstd::prelude::*;

verus! {

/// The load flags for rasterizing: FreeType's defaults with light hinting
/// (`FT_LOAD_DEFAULT | FT_LOAD_TARGET_LIGHT`).
pub const LOAD_FLAGS: i32 = 0x10000;

/// Why a glyph could not be rasterized.
#[derive(Copy, Clone, Debug, PartialEq, Eq, Structural)]
pub enum RasterizeError {
    /// FreeType could not load the glyph.
    Load,
    /// FreeType could not render the glyph.
    Render,
    /// The bitmap's size and pitch do not describe bytes inside its buffer,
    /// or its size does not fit an `i32`.
    BitmapLayout,
    /// The pen advance is not a whole number of pixels.
    AdvanceNotWholePixels,
    /// An LCD bitmap whose width is not three bytes per pixel.
    WidthNotMultipleOfThree,
}

/// Whether `v` fits an `i32`.
pub open spec fn fits_i32(v: int) -> bool {
    i32::MIN <= v <= i32::MAX
}

/// Where byte `x` of row `y` lies in a buffer whose rows start `pitch` bytes
/// apart.
pub open spec fn byte_offset(pitch: int, y: int, x: int) -> int {
    y * pitch + x
}

/// Whether every pixel byte of a bitmap of `rows` rows of `width` bytes, one
/// row every `pitch` bytes, lies in a buffer of `len` bytes, its offset
/// computed in `i32` without overflow. (The row offsets `y * pitch` then fit
/// an `i32` too, the column offsets being small and non-negative.)
pub open spec fn copy_in_bounds(len: int, width: int, rows: int, pitch: int) -> bool {
    forall|y: int, x: int|
        0 <= y < rows && 0 <= x < width ==> {
            &&& fits_i32(#[trigger] byte_offset(pitch, y, x))
            &&& 0 <= byte_offset(pitch, y, x) < len
        }
}

/// Whether the bitmap's bytes can be copied out: its byte count
/// `width * rows` is a non-negative `i32`, and every byte lies in the buffer.
pub open spec fn bitmap_copyable(len: int, width: int, rows: int, pitch: int) -> bool {
    &&& 0 <= width * rows <= i32::MAX
    &&& copy_in_bounds(len, width, rows, pitch)
}

/// The bitmap's bytes without row padding: `width * rows` bytes, byte
/// `y * width + x` being byte `y * pitch + x` of `padded`; all zero when the
/// bitmap has no row or no column to copy.
pub open spec fn unpadded(padded: Seq<u8>, width: int, rows: int, pitch: int) -> Seq<u8> {
    if width > 0 && rows > 0 {
        Seq::new((width * rows) as nat, |i: int| padded[(i / width) * pitch + i % width])
    } else {
        Seq::new((width * rows) as nat, |i: int| 0u8)
    }
}

/// The glyph rasterized from an LCD bitmap whose bytes are `padded` and from
/// its slot's bearings and 26.6 advance: the pixel width is a third of the
/// byte width, and the advance is in whole pixels.
pub open spec fn glyph_from_bitmap_spec(
    padded: Seq<u8>,
    width: i32,
    rows: i32,
    pitch: i32,
    left_bearing: i32,
    top_bearing: i32,
    advance_26_6: i64,
) -> Result<GlyphImage, RasterizeError> {
    if !bitmap_copyable(padded.len() as int, width as int, rows as int, pitch as int) {
        Err(RasterizeError::BitmapLayout)
    } else if advance_26_6 % 64 != 0 {
        Err(RasterizeError::AdvanceNotWholePixels)
    } else if width % 3 != 0 {
        Err(RasterizeError::WidthNotMultipleOfThree)
    } else {
        Ok(
            GlyphImage {
                width: (width / 3) as u32,
                height: rows as u32,
                pixels: unpadded(padded, width as int, rows as int, pitch as int),
                left_bearing,
                top_bearing,
                advance: (advance_26_6 / 64) as i32,
            },
        )
    }
}

/// The closed form of `copy_in_bounds` for a bitmap with at least one row and
/// one column: the rows do not run backwards past the first, and the last
/// byte of the last row is in the buffer.
proof fn lemma_copy_in_bounds_closed_form(len: int, width: int, rows: int, pitch: int)
    requires
        width > 0,
        rows > 0,
        fits_i32(width),
        fits_i32(rows),
        fits_i32(pitch),
    ensures
        copy_in_bounds(len, width, rows, pitch) <==> {
            &&& (pitch >= 0 || rows == 1)
            &&& (rows - 1) * pitch + width - 1 < len
            &&& (rows - 1) * pitch + width - 1 <= i32::MAX
        },
{
    let last = (rows - 1) * pitch + width - 1;
    if (pitch >= 0 || rows == 1) && last < len && last <= i32::MAX {
        assert forall|y: int, x: int| 0 <= y < rows && 0 <= x < width implies {
            &&& fits_i32(#[trigger] byte_offset(pitch, y, x))
            &&& 0 <= byte_offset(pitch, y, x) < len
        } by {
            if rows == 1 {
                assert(y == 0);
                assert(y * pitch == 0) by (nonlinear_arith)
                    requires y == 0;
            } else {
                assert(0 <= y * pitch <= (rows - 1) * pitch) by (nonlinear_arith)
                    requires 0 <= y <= rows - 1, pitch >= 0;
            }
        }
        assert(copy_in_bounds(len, width, rows, pitch));
    } else if !(pitch >= 0 || rows == 1) {
        // the second row starts before the buffer
        assert(byte_offset(pitch, 1, 0) == pitch);
        assert(!copy_in_bounds(len, width, rows, pitch));
    } else {
        // the last byte of the last row
        assert(byte_offset(pitch, rows - 1, width - 1) == last);
        assert(!copy_in_bounds(len, width, rows, pitch));
    }
}

/// Whether the bytes of a bitmap with at least one row and one column lie in
/// a buffer of `len` bytes.
fn check_copy_in_bounds(len: usize, width: i32, rows: i32, pitch: i32) -> (ok: bool)
    requires
        width > 0,
        rows > 0,
    ensures
        ok == copy_in_bounds(len as int, width as int, rows as int, pitch as int),
{
    proof {
        lemma_copy_in_bounds_closed_form(len as int, width as int, rows as int, pitch as int);
    }
    if pitch < 0 && rows != 1 {
        return false;
    }
    let r: i64 = rows as i64;
    let p: i64 = pitch as i64;
    assert(0 <= (r - 1) * p <= 0x7fff_ffff * 0x7fff_ffff) by (nonlinear_arith)
        requires 0 <= r - 1 <= 0x7fff_ffff, -0x8000_0000 <= p <= 0x7fff_ffff, p >= 0 || r == 1;
    let last: i64 = (r - 1) * p + (width as i64) - 1;
    last <= 0x7fff_ffff && (last as u64) < (len as u64)
}

/// Copies the bytes of a bitmap of `rows` rows of `width` bytes, stored one
/// row every `pitch` bytes in `padded`, into rows without padding.
pub fn unpad_bitmap(padded: &[u8], width: i32, rows: i32, pitch: i32) -> (buffer: Vec<u8>)
    requires
        bitmap_copyable(padded@.len() as int, width as int, rows as int, pitch as int),
    ensures
        buffer@ == unpadded(padded@, width as int, rows as int, pitch as int),
{
    let size: usize = (width * rows) as usize;
    if !(width > 0 && rows > 0) {
        let buffer: Vec<u8> = vec![0u8; size];
        assert(buffer@ =~= unpadded(padded@, width as int, rows as int, pitch as int));
        return buffer;
    }
    let mut buffer: Vec<u8> = Vec::new();
    let ghost target = unpadded(padded@, width as int, rows as int, pitch as int);
    let mut y: i32 = 0;
    while y < rows
        invariant
            0 <= y <= rows,
            width > 0,
            rows > 0,
            bitmap_copyable(padded@.len() as int, width as int, rows as int, pitch as int),
            target == unpadded(padded@, width as int, rows as int, pitch as int),
            buffer@.len() == y * width,
            forall|i: int| 0 <= i < buffer@.len() ==> buffer@[i] == target[i],
        decreases rows - y,
    {
        let mut x: i32 = 0;
        while x < width
            invariant
                0 <= y < rows,
                0 <= x <= width,
                width > 0,
                rows > 0,
                bitmap_copyable(padded@.len() as int, width as int, rows as int, pitch as int),
                target == unpadded(padded@, width as int, rows as int, pitch as int),
                buffer@.len() == y * width + x,
                forall|i: int| 0 <= i < buffer@.len() ==> buffer@[i] == target[i],
            decreases width - x,
        {
            proof {
                assert(copy_in_bounds(padded@.len() as int, width as int, rows as int, pitch as int));
                let off = byte_offset(pitch as int, y as int, x as int);
                assert(fits_i32(y * pitch) && fits_i32(off) && 0 <= off < padded@.len());
                let i = y * width + x;
                assert(i < width * rows) by (nonlinear_arith)
                    requires i == y * width + x, 0 <= x < width, y + 1 <= rows;
                assert(0 <= i);
                lemma_fundamental_div_mod_converse(i, width as int, y as int, x as int);
                assert(target.len() == width * rows);
                assert(target[i] == padded@[off]);
            }
            buffer.push(padded[(y * pitch + x) as usize]);
            x = x + 1;
        }
        proof {
            assert(y * width + width == (y + 1) * width) by (nonlinear_arith);
        }
        y = y + 1;
    }
    assert(buffer@.len() == width * rows) by (nonlinear_arith)
        requires buffer@.len() == y * width, y == rows;
    assert(buffer@ =~= target);
    buffer
}

/// The glyph rasterized from an LCD bitmap of `rows` rows of `width` bytes
/// stored one row every `pitch` bytes in `padded`, with the slot's bearings
/// and its advance in 1/64 pixel (see `glyph_from_bitmap_spec`).
pub fn glyph_from_bitmap(
    padded: &[u8],
    width: i32,
    rows: i32,
    pitch: i32,
    left_bearing: i32,
    top_bearing: i32,
    advance_26_6: i64,
) -> (r: Result<RasterizedGlyph, RasterizeError>)
    ensures
        match r {
            Ok(glyph) => glyph_from_bitmap_spec(
                padded@, width, rows, pitch, left_bearing, top_bearing, advance_26_6,
            ) == Ok::<GlyphImage, RasterizeError>(glyph@),
            Err(e) => glyph_from_bitmap_spec(
                padded@, width, rows, pitch, left_bearing, top_bearing, advance_26_6,
            ) == Err::<GlyphImage, RasterizeError>(e),
        },
        r matches Ok(glyph) ==> {
            &&& glyph.left_bearing == left_bearing
            &&& glyph.top_bearing == top_bearing
            &&& advance_26_6 % 64 == 0
            &&& glyph.advance == (advance_26_6 / 64) as i32
            &&& width % 3 == 0
            &&& glyph.width == (width / 3) as u32
            &&& glyph.height == rows as u32
            &&& glyph.pixels@.len() == width * rows
        },
{
    let w: i64 = width as i64;
    let h: i64 = rows as i64;
    assert(-0x8000_0000 * 0x8000_0000 <= w * h <= 0x8000_0000 * 0x8000_0000) by (nonlinear_arith)
        requires -0x8000_0000 <= w <= 0x8000_0000, -0x8000_0000 <= h <= 0x8000_0000;
    let size: i64 = w * h;
    if size < 0 || size > 0x7fff_ffff {
        return Err(RasterizeError::BitmapLayout);
    }
    if width > 0 && rows > 0 && !check_copy_in_bounds(padded.len(), width, rows, pitch) {
        return Err(RasterizeError::BitmapLayout);
    }
    proof {
        if !(width > 0 && rows > 0) {
            // no byte to copy
            assert(copy_in_bounds(padded@.len() as int, width as int, rows as int, pitch as int));
        }
    }
    let pixels = unpad_bitmap(padded, width, rows, pitch);
    if advance_26_6 % 64 != 0 {
        return Err(RasterizeError::AdvanceNotWholePixels);
    }
    if width % 3 != 0 {
        return Err(RasterizeError::WidthNotMultipleOfThree);
    }
    Ok(
        RasterizedGlyph {
            width: #[verifier::truncate] ((width / 3) as u32),
            height: #[verifier::truncate] (rows as u32),
            pixels,
            left_bearing,
            top_bearing,
            advance: #[verifier::truncate] ((advance_26_6 / 64) as i32),
        },
    )
}

/// The bytes of a rendered bitmap as they are read: none when it has no row
/// or a zero pitch (FreeType then has no buffer), else its buffer.
pub open spec fn image_bytes(image: SlotImage) -> Seq<u8> {
    if image.rows == 0 || image.pitch == 0 {
        Seq::empty()
    } else {
        image.buffer
    }
}

/// Whether the byte count `|pitch| * rows` of a rendered bitmap is a
/// non-negative `i32`.
pub open spec fn image_size_fits(image: SlotImage) -> bool {
    &&& image.rows >= 0
    &&& image.pitch != i32::MIN
    &&& abs_i32(image.pitch) * image.rows <= i32::MAX
}

/// The glyph rasterized from what a rendered glyph slot holds.
pub open spec fn glyph_from_image(image: SlotImage) -> Result<GlyphImage, RasterizeError> {
    if !image_size_fits(image) {
        Err(RasterizeError::BitmapLayout)
    } else {
        glyph_from_bitmap_spec(
            image_bytes(image),
            image.width,
            image.rows,
            image.pitch,
            image.left,
            image.top,
            image.advance_x,
        )
    }
}

/// A glyph made of a rendered slot keeps the slot's bearings, takes a third
/// of its byte width as its width in pixels and its rows as its height, and
/// advances by whole pixels: the slot's advance divided by 64.
pub proof fn lemma_glyph_from_image_fields(image: SlotImage)
    requires
        glyph_from_image(image) is Ok,
    ensures
        ({
            let glyph = glyph_from_image(image)->Ok_0;
            &&& glyph.left_bearing == image.left
            &&& glyph.top_bearing == image.top
            &&& image.advance_x % 64 == 0
            &&& glyph.advance == (image.advance_x / 64) as i32
            &&& image.width % 3 == 0
            &&& glyph.width == (image.width / 3) as u32
            &&& glyph.height == image.rows as u32
            &&& glyph.pixels.len() == image.width * image.rows
        }),
{
}

/// A rasterization's result as a value.
pub open spec fn rasterized_view(r: Result<RasterizedGlyph, RasterizeError>) -> Result<GlyphImage, RasterizeError> {
    match r {
        Ok(glyph) => Ok(glyph@),
        Err(e) => Err(e),
    }
}

/// Whether a rasterization result is a failure of FreeType to load or to
/// render.
pub open spec fn freetype_failed(result: Result<GlyphImage, RasterizeError>) -> bool {
    result matches Err(RasterizeError::Load) || result matches Err(RasterizeError::Render)
}

/// What the slot of `face` shows after rasterizing `glyph_id` gave `result`:
/// a failed load of `glyph_id` with `LOAD_FLAGS`, a failed rendering of it
/// for an LCD screen, or its rendering for an LCD screen, of whose image
/// `result` is the glyph.
pub open spec fn rasterize_outcome(face: FaceView, glyph_id: u32, result: Result<GlyphImage, RasterizeError>) -> bool {
    match result {
        Err(RasterizeError::Load) => face.slot == SlotState::LoadFailed { glyph_index: glyph_id, load_flags: LOAD_FLAGS },
        Err(RasterizeError::Render) => face.slot == (SlotState::RenderFailed {
            glyph_index: glyph_id,
            load_flags: LOAD_FLAGS,
            mode: RenderMode::Lcd,
        }),
        _ => {
            &&& face.slot is Rendered
            &&& rendered(face).glyph_index == glyph_id
            &&& rendered(face).load_flags == LOAD_FLAGS
            &&& rendered(face).mode == RenderMode::Lcd
            &&& result == glyph_from_image(rendered(face).image)
        },
    }
}

/// Rasterizes the glyph `glyph_id` of `face` for the atlas: loads it with
/// `LOAD_FLAGS` (light hinting), renders it for an LCD screen and makes the
/// glyph of what the slot then holds (see `glyph_from_image`). Fails with
/// `Load` or `Render` when FreeType cannot load or render the glyph; whether
/// it can depends on the font.
pub fn rasterize_glyph(glyph_id: u32, face: &mut FontFace) -> (r: Result<RasterizedGlyph, RasterizeError>)
    ensures
        final(face)@.char_indices == old(face)@.char_indices,
        final(face)@.bbox == old(face)@.bbox,
        final(face)@.scales == old(face)@.scales,
        rasterize_outcome(final(face)@, glyph_id, rasterized_view(r)),
        freetype_failed(rasterized_view(r)) ==> final(face)@.renders == old(face)@.renders,
        !freetype_failed(rasterized_view(r)) ==> final(face)@.renders == old(face)@.renders.push(rendered(final(face)@)),
        r matches Ok(glyph) ==> {
            let image = rendered(final(face)@).image;
            &&& glyph.left_bearing == image.left
            &&& glyph.top_bearing == image.top
            &&& image.advance_x % 64 == 0
            &&& glyph.advance == (image.advance_x / 64) as i32
            &&& image.width % 3 == 0
            &&& glyph.width == (image.width / 3) as u32
            &&& glyph.height == image.rows as u32
        },
{
    if face.load_glyph(glyph_id, LOAD_FLAGS).is_err() {
        return Err(RasterizeError::Load);
    }
    if face.render_glyph(RenderMode::Lcd).is_err() {
        return Err(RasterizeError::Render);
    }
    let width = face.bitmap_width();
    let rows = face.bitmap_rows();
    let pitch = face.bitmap_pitch();
    let left_bearing = face.bitmap_left();
    let top_bearing = face.bitmap_top();
    let advance = face.advance_x();
    if rows < 0 || pitch == i32::MIN {
        return Err(RasterizeError::BitmapLayout);
    }
    let row_bytes: i64 = if pitch < 0 { -(pitch as i64) } else { pitch as i64 };
    assert(0 <= row_bytes * (rows as i64) <= 0x8000_0000 * 0x8000_0000) by (nonlinear_arith)
        requires 0 <= row_bytes <= 0x8000_0000, 0 <= rows <= 0x8000_0000;
    if row_bytes * (rows as i64) > 0x7fff_ffff {
        return Err(RasterizeError::BitmapLayout);
    }
    let padded: Vec<u8> = if rows == 0 || pitch == 0 {
        Vec::new()
    } else {
        face.bitmap_buffer()
    };
    let r = glyph_from_bitmap(padded.as_slice(), width, rows, pitch, left_bearing, top_bearing, advance);
    proof {
        assert(padded@ == image_bytes(rendered(face@).image));
    }
    r
}

} // verus!
