//! Laying a frame of text out as textured quads: which lines are visible,
//! which glyphs they use, rasterizing into the atlas the glyphs it lacks, and
//! where each glyph's quad goes as the pen moves along the lines.
use crate::rasterize_glyph::{fits_i32, glyph_from_image, rasterize_glyph, rasterize_outcome, rasterized_view, RasterizeError, LOAD_FLAGS};
use crate::texture_atlas::{describe, AtlasView, GlyphDescription, GlyphImage, RasterizedGlyph, TextureAtlas};
use crate::font::{rendered, FaceView, FontFace, RenderMode, RenderRecord};
use vstd::prelude::*;

verus! {

/// A glyph's place on screen: its top left corner in pixels from the window's
/// top left, its size in pixels, and the atlas layer holding its image.
#[derive(Copy, Clone, Debug, PartialEq, Eq, Structural)]
pub struct Quad {
    pub x: u32,
    pub y: u32,
    pub width: u32,
    pub height: u32,
    pub layer: usize,
}

/// A glyph newly rasterized into the atlas, whose pixels are still to be
/// uploaded to the texture's `layer`.
#[derive(Debug)]
pub struct GlyphUpload {
    pub glyph_index: u32,
    pub layer: usize,
    pub glyph: RasterizedGlyph,
}

/// Why a frame could not be laid out.
#[derive(Copy, Clone, Debug, PartialEq, Eq, Structural)]
pub enum FrameError {
    /// A glyph could not be rasterized.
    Rasterize(RasterizeError),
    /// A new glyph was needed but every atlas layer is filled.
    AtlasFull,
    /// A pen position left the range of `i32`.
    Overflow,
}

/// A laid-out frame: the glyph indices of each visible line, the glyphs to
/// upload to the atlas texture, and the quads to draw.
#[derive(Debug)]
pub struct Frame {
    pub glyphs: Vec<Vec<u32>>,
    pub uploads: Vec<GlyphUpload>,
    pub quads: Vec<Quad>,
}

/// `v`, or 0 when `v` is negative.
pub open spec fn clamp_to_zero(v: int) -> int {
    if v < 0 {
        0
    } else {
        v
    }
}

/// The number of lines drawn in a window `window_height` pixels high: the
/// lines that fit whole, and one more.
pub open spec fn visible_line_count_spec(window_height: u32, line_height: u32) -> int {
    window_height / line_height + 1
}

/// The quad of a glyph described by `d` drawn with the pen at
/// `(pen_x, pen_y)`: its bitmap's top left stands `left_bearing` right of the
/// pen and `top_bearing` above it, clamped to the window's top and left edges.
pub open spec fn glyph_quad(d: GlyphDescription, pen_x: int, pen_y: int) -> Quad {
    Quad {
        x: clamp_to_zero(pen_x + d.left_bearing) as u32,
        y: clamp_to_zero(pen_y - d.top_bearing) as u32,
        width: d.width,
        height: d.height,
        layer: d.layer,
    }
}

/// Prepends `front` to an optional sequence.
pub open spec fn prepend(front: Seq<Quad>, rest: Option<Seq<Quad>>) -> Option<Seq<Quad>> {
    match rest {
        Some(r) => Some(front + r),
        None => None,
    }
}

/// The quads of the glyphs `glyphs`, described in `atlas`, for a pen starting
/// at `(pen_x, pen_y)` and moving right by each glyph's advance; `None` when a
/// position computed in `i32` would overflow.
pub open spec fn line_quads(
    glyphs: Seq<u32>,
    atlas: Map<u32, GlyphDescription>,
    pen_x: int,
    pen_y: int,
) -> Option<Seq<Quad>>
    decreases glyphs.len(),
{
    if glyphs.len() == 0 {
        Some(Seq::empty())
    } else {
        let d = atlas[glyphs[0]];
        if !fits_i32(pen_x + d.left_bearing) || !fits_i32(pen_y - d.top_bearing) || !fits_i32(
            pen_x + d.advance,
        ) {
            None
        } else {
            prepend(
                seq![glyph_quad(d, pen_x, pen_y)],
                line_quads(glyphs.drop_first(), atlas, pen_x + d.advance, pen_y),
            )
        }
    }
}

/// The quads of the lines `lines`, the first with its baseline at `pen_y`
/// and each next one `step` lower, every line starting at the left edge;
/// `None` when a position computed in `i32` would overflow, the move below
/// the last line included.
pub open spec fn text_quads(
    lines: Seq<Vec<u32>>,
    atlas: Map<u32, GlyphDescription>,
    pen_y: int,
    step: int,
) -> Option<Seq<Quad>>
    decreases lines.len(),
{
    if lines.len() == 0 {
        Some(Seq::empty())
    } else {
        match line_quads(lines[0]@, atlas, 0, pen_y) {
            None => None,
            Some(first) => if !fits_i32(pen_y + step) {
                None
            } else {
                prepend(first, text_quads(lines.drop_first(), atlas, pen_y + step, step))
            },
        }
    }
}

/// Whether `atlas` describes every glyph of `lines`.
pub open spec fn describes_all(atlas: Map<u32, GlyphDescription>, lines: Seq<Vec<u32>>) -> bool {
    forall|i: int, k: int|
        0 <= i < lines.len() && 0 <= k < lines[i]@.len() ==> atlas.contains_key(
            #[trigger] lines[i]@[k],
        )
}

/// The number of lines drawn in a window `window_height` pixels high with
/// lines `line_height` pixels apart.
pub fn visible_line_count(window_height: u32, line_height: u32) -> (n: u32)
    requires
        line_height > 0,
        visible_line_count_spec(window_height, line_height) <= u32::MAX,
    ensures
        n == visible_line_count_spec(window_height, line_height),
        (n - 1) * line_height <= window_height < n * line_height,
{
    proof {
        lemma_visible_lines_cover_window(window_height, line_height);
    }
    window_height / line_height + 1
}

/// The number of lines drawn is the least number of lines that covers the
/// window: all but the last fit whole, and the last reaches past its bottom.
pub proof fn lemma_visible_lines_cover_window(window_height: u32, line_height: u32)
    requires
        line_height > 0,
    ensures
        (visible_line_count_spec(window_height, line_height) - 1) * line_height <= window_height,
        window_height < visible_line_count_spec(window_height, line_height) * line_height,
{
    let n = visible_line_count_spec(window_height, line_height);
    let q = window_height / line_height;
    let r = window_height % line_height;
    vstd::arithmetic::div_mod::lemma_fundamental_div_mod(window_height as int, line_height as int);
    assert(window_height == line_height * q + r);
    assert(0 <= r < line_height);
    assert(n == q + 1);
    assert((n - 1) * line_height == q * line_height) by (nonlinear_arith)
        requires n == q + 1;
    assert(n * line_height == q * line_height + line_height) by (nonlinear_arith)
        requires n == q + 1;
    assert(line_height * q == q * line_height) by (nonlinear_arith);
}

/// Where a glyph's quad stands: its bitmap's left edge `left_bearing` right of
/// the pen and its top `top_bearing` above the baseline, each clamped to the
/// window's left and top edges, with the glyph's size and atlas layer.
pub proof fn lemma_glyph_quad_place(d: GlyphDescription, pen_x: int, pen_y: int)
    requires
        fits_i32(pen_x + d.left_bearing),
        fits_i32(pen_y - d.top_bearing),
    ensures
        glyph_quad(d, pen_x, pen_y).x == (if pen_x + d.left_bearing < 0 { 0 } else { pen_x + d.left_bearing }),
        glyph_quad(d, pen_x, pen_y).y == (if pen_y - d.top_bearing < 0 { 0 } else { pen_y - d.top_bearing }),
        glyph_quad(d, pen_x, pen_y).width == d.width,
        glyph_quad(d, pen_x, pen_y).height == d.height,
        glyph_quad(d, pen_x, pen_y).layer == d.layer,
{
}

/// The character code a character is asked about is its Unicode scalar
/// value.
pub proof fn lemma_charcode_is_scalar_value(c: char)
    ensures
        charcode(c) == c as usize,
        charcode(c) == c as u32 as usize,
{
}

/// One step of `line_quads`: the quads from glyph `k` on are the quad of
/// glyph `k` followed by the quads from glyph `k + 1` on, the pen moved.
proof fn lemma_line_quads_step(glyphs: Seq<u32>, atlas: Map<u32, GlyphDescription>, k: int, pen_x: int, pen_y: int)
    requires
        0 <= k < glyphs.len(),
    ensures
        ({
            let d = atlas[glyphs[k]];
            line_quads(glyphs.skip(k), atlas, pen_x, pen_y) == if !fits_i32(pen_x + d.left_bearing)
                || !fits_i32(pen_y - d.top_bearing) || !fits_i32(pen_x + d.advance) {
                None
            } else {
                prepend(
                    seq![glyph_quad(d, pen_x, pen_y)],
                    line_quads(glyphs.skip(k + 1), atlas, pen_x + d.advance, pen_y),
                )
            }
        }),
{
    assert(glyphs.skip(k).drop_first() =~= glyphs.skip(k + 1));
    assert(glyphs.skip(k)[0] == glyphs[k]);
}

/// Prepending two pieces one after the other is prepending them joined.
proof fn lemma_prepend_prepend(a: Seq<Quad>, b: Seq<Quad>, rest: Option<Seq<Quad>>)
    ensures
        prepend(a, prepend(b, rest)) == prepend(a + b, rest),
{
    if let Some(r) = rest {
        assert(a + (b + r) =~= (a + b) + r);
    }
}

/// The quads of one line of glyphs, the pen starting at the left edge with
/// its baseline at `pen_y`, appended to `quads`; `false` (and `quads` holding
/// the quads of the line's first glyphs) when a position would overflow.
fn layout_line(glyphs: &Vec<u32>, atlas: &TextureAtlas, pen_y: i32, quads: &mut Vec<Quad>) -> (ok: bool)
    requires
        forall|k: int| 0 <= k < glyphs@.len() ==> atlas@.glyphs.contains_key(#[trigger] glyphs@[k]),
    ensures
        ok == (line_quads(glyphs@, atlas@.glyphs, 0, pen_y as int) is Some),
        ok ==> final(quads)@ == old(quads)@ + line_quads(glyphs@, atlas@.glyphs, 0, pen_y as int)->0,
{
    let ghost start = quads@;
    let mut pen_x: i32 = 0;
    let mut k: usize = 0;
    assert(glyphs@.skip(0) =~= glyphs@);
    while k < glyphs.len()
        invariant
            k <= glyphs@.len(),
            forall|j: int| 0 <= j < glyphs@.len() ==> atlas@.glyphs.contains_key(#[trigger] glyphs@[j]),
            line_quads(glyphs@, atlas@.glyphs, 0, pen_y as int) == prepend(
                quads@.skip(start.len() as int),
                line_quads(glyphs@.skip(k as int), atlas@.glyphs, pen_x as int, pen_y as int),
            ),
            quads@.len() >= start.len(),
            quads@.take(start.len() as int) == start,
        decreases glyphs@.len() - k,
    {
        let d = atlas.lookup(glyphs[k]).unwrap();
        proof {
            lemma_line_quads_step(glyphs@, atlas@.glyphs, k as int, pen_x as int, pen_y as int);
        }
        let left = pen_x.checked_add(d.left_bearing);
        let top = pen_y.checked_sub(d.top_bearing);
        let next = pen_x.checked_add(d.advance);
        if left.is_none() || top.is_none() || next.is_none() {
            return false;
        }
        let left = left.unwrap();
        let top = top.unwrap();
        let quad = Quad {
            x: if left < 0 { 0 } else { left as u32 },
            y: if top < 0 { 0 } else { top as u32 },
            width: d.width,
            height: d.height,
            layer: d.layer,
        };
        let ghost before = quads@;
        quads.push(quad);
        proof {
            lemma_prepend_prepend(
                before.skip(start.len() as int),
                seq![quad],
                line_quads(glyphs@.skip(k + 1), atlas@.glyphs, pen_x + d.advance, pen_y as int),
            );
            assert(quads@.skip(start.len() as int) =~= before.skip(start.len() as int) + seq![quad]);
            assert(quads@.take(start.len() as int) =~= before.take(start.len() as int));
        }
        pen_x = next.unwrap();
        k = k + 1;
    }
    proof {
        assert(glyphs@.skip(k as int) =~= Seq::<u32>::empty());
        assert(quads@ =~= start + quads@.skip(start.len() as int));
    }
    true
}

/// One step of `text_quads`: the quads from line `i` on are the quads of
/// line `i` followed by those of the lines after it, one step lower.
proof fn lemma_text_quads_step(lines: Seq<Vec<u32>>, atlas: Map<u32, GlyphDescription>, i: int, pen_y: int, step: int)
    requires
        0 <= i < lines.len(),
    ensures
        text_quads(lines.skip(i), atlas, pen_y, step) == match line_quads(lines[i]@, atlas, 0, pen_y) {
            None => None,
            Some(first) => if !fits_i32(pen_y + step) {
                None
            } else {
                prepend(first, text_quads(lines.skip(i + 1), atlas, pen_y + step, step))
            },
        },
{
    assert(lines.skip(i).drop_first() =~= lines.skip(i + 1));
    assert(lines.skip(i)[0] == lines[i]);
}

/// The quads of the lines of glyphs `lines`, lines `line_height` pixels apart
/// (the distance taken as an `i32`, cut to its low 32 bits), the first
/// baseline one line below the window's top; `None` when a pen position
/// would overflow `i32`.
pub fn layout_glyphs(lines: &Vec<Vec<u32>>, atlas: &TextureAtlas, line_height: u32) -> (quads: Option<
    Vec<Quad>,
>)
    requires
        describes_all(atlas@.glyphs, lines@),
    ensures
        match quads {
            Some(q) => text_quads(
                lines@,
                atlas@.glyphs,
                (line_height as i32) as int,
                (line_height as i32) as int,
            ) == Some(q@),
            None => text_quads(
                lines@,
                atlas@.glyphs,
                (line_height as i32) as int,
                (line_height as i32) as int,
            ) is None,
        },
{
    let step: i32 = #[verifier::truncate] (line_height as i32);
    let mut pen_y: i32 = step;
    let mut quads: Vec<Quad> = Vec::new();
    let mut i: usize = 0;
    assert(lines@.skip(0) =~= lines@);
    while i < lines.len()
        invariant
            i <= lines@.len(),
            step == (line_height as i32),
            describes_all(atlas@.glyphs, lines@),
            text_quads(lines@, atlas@.glyphs, step as int, step as int) == prepend(
                quads@,
                text_quads(lines@.skip(i as int), atlas@.glyphs, pen_y as int, step as int),
            ),
        decreases lines@.len() - i,
    {
        proof {
            lemma_text_quads_step(lines@, atlas@.glyphs, i as int, pen_y as int, step as int);
            assert forall|k: int| 0 <= k < lines@[i as int]@.len() implies atlas@.glyphs.contains_key(
                #[trigger] lines@[i as int]@[k],
            ) by {
                assert(atlas@.glyphs.contains_key(lines@[i as int]@[k]));
            }
        }
        let ghost before = quads@;
        let ok = layout_line(&lines[i], atlas, pen_y, &mut quads);
        if !ok {
            return None;
        }
        let next = pen_y.checked_add(step);
        if next.is_none() {
            return None;
        }
        proof {
            let first = line_quads(lines@[i as int]@, atlas@.glyphs, 0, pen_y as int)->0;
            lemma_prepend_prepend(
                before,
                first,
                text_quads(lines@.skip(i + 1), atlas@.glyphs, pen_y + step, step as int),
            );
        }
        pen_y = next.unwrap();
        i = i + 1;
    }
    proof {
        assert(lines@.skip(i as int) =~= Seq::<Vec<u32>>::empty());
        assert(quads@ + Seq::<Quad>::empty() =~= quads@);
    }
    Some(quads)
}

/// The character code FreeType is asked about for `c`.
pub open spec fn charcode(c: char) -> usize {
    c as usize
}

/// Whether `indices` gives the glyph index `glyph` for the character code `code`.
pub open spec fn maps_to(indices: Map<usize, u32>, code: usize, glyph: u32) -> bool {
    indices.contains_key(code) && indices[code] == glyph
}

/// Whether `glyphs` holds, line by line, the glyph index `face` gave for each
/// character of the first `glyphs.len()` lines of `lines`.
pub open spec fn glyph_indices_of(face: FaceView, lines: Seq<String>, glyphs: Seq<Vec<u32>>) -> bool {
    &&& glyphs.len() <= lines.len()
    &&& forall|i: int| 0 <= i < glyphs.len() ==> (#[trigger] glyphs[i])@.len() == lines[i]@.len()
    &&& forall|i: int, k: int|
        0 <= i < glyphs.len() && 0 <= k < glyphs[i]@.len() ==> maps_to(
            face.char_indices,
            charcode(lines[i]@[k]),
            #[trigger] glyphs[i]@[k],
        )
}

/// Whether `after` records every character index `before` records, the same.
pub open spec fn char_indices_kept(before: FaceView, after: FaceView) -> bool {
    forall|c: usize|
        #[trigger] before.char_indices.contains_key(c) ==> after.char_indices.contains_key(c)
            && after.char_indices[c] == before.char_indices[c]
}

/// The glyph index in `face` of each character of each of the first `count`
/// lines of `lines`.
pub fn glyph_lines(lines: &Vec<String>, face: &mut FontFace, count: usize) -> (glyphs: Vec<Vec<u32>>)
    ensures
        glyphs@.len() == if lines@.len() < count { lines@.len() } else { count as nat },
        glyph_indices_of(final(face)@, lines@, glyphs@),
        forall|i: int, k: int|
            0 <= i < glyphs@.len() && 0 <= k < lines@[i]@.len() ==> maps_to(
                final(face)@.char_indices,
                lines@[i]@[k] as usize,
                #[trigger] glyphs@[i]@[k],
            ),
        char_indices_kept(old(face)@, final(face)@),
        final(face)@.slot == old(face)@.slot,
        final(face)@.renders == old(face)@.renders,
{
    let mut glyphs: Vec<Vec<u32>> = Vec::new();
    let mut i: usize = 0;
    while i < lines.len() && i < count
        invariant
            i <= lines@.len(),
            i <= count,
            glyphs@.len() == i,
            glyph_indices_of(face@, lines@, glyphs@),
            char_indices_kept(old(face)@, face@),
            face@.slot == old(face)@.slot,
            face@.renders == old(face)@.renders,
        decreases lines@.len() - i,
    {
        let mut line_glyphs: Vec<u32> = Vec::new();
        let line: &str = lines[i].as_str();
        let ghost face_before = face@;
        for character in it: line.chars()
            invariant
                i < lines@.len(),
                glyphs@.len() == i,
                glyph_indices_of(face_before, lines@, glyphs@),
                line@ == lines@[i as int]@,
                line_glyphs@.len() == it.index(),
                it.seq() == line@,
                char_indices_kept(face_before, face@),
                char_indices_kept(old(face)@, face@),
                face@.slot == old(face)@.slot,
                face@.renders == old(face)@.renders,
                forall|m: int|
                    0 <= m < line_glyphs@.len() ==> maps_to(face@.char_indices, charcode(line@[m]), #[trigger] line_glyphs@[m]),
        {
            let ghost before = face@;
            let code: usize = character as usize;
            assert(code == charcode(character));
            let index = face.char_index(code);
            proof {
                assert(character == line@[line_glyphs@.len() as int]);
                assert forall|c: usize| #[trigger] before.char_indices.contains_key(c) implies face@.char_indices.contains_key(c)
                    && face@.char_indices[c] == before.char_indices[c] by {}
            }
            let ghost glyphs_before = line_glyphs@;
            line_glyphs.push(index);
            proof {
                assert forall|m: int| 0 <= m < line_glyphs@.len() implies maps_to(
                    face@.char_indices,
                    charcode(line@[m]),
                    #[trigger] line_glyphs@[m],
                ) by {
                    if m < glyphs_before.len() {
                        assert(maps_to(before.char_indices, charcode(line@[m]), glyphs_before[m]));
                        assert(line_glyphs@[m] == glyphs_before[m]);
                    }
                }
            }
        }
        proof {
            assert forall|j: int, k: int| 0 <= j < i && 0 <= k < glyphs@[j]@.len() implies maps_to(
                face@.char_indices,
                charcode(lines@[j]@[k]),
                #[trigger] glyphs@[j]@[k],
            ) by {
                assert(maps_to(face_before.char_indices, charcode(lines@[j]@[k]), glyphs@[j]@[k]));
            }
        }
        glyphs.push(line_glyphs);
        i = i + 1;
    }
    proof {
        assert forall|i: int, k: int|
            0 <= i < glyphs@.len() && 0 <= k < lines@[i]@.len() implies maps_to(
                face@.char_indices,
                lines@[i]@[k] as usize,
                #[trigger] glyphs@[i]@[k],
            ) by {
            assert(maps_to(face@.char_indices, charcode(lines@[i]@[k]), glyphs@[i]@[k]));
        }
    }
    glyphs
}

/// How `new` follows from `old` once the glyphs `uploads` were rasterized
/// into it: nothing described before changed, each upload took the next
/// layer for a glyph not described before, and nothing else was added.
pub open spec fn atlas_grown_by(old: AtlasView, new: AtlasView, uploads: Seq<GlyphUpload>) -> bool {
    &&& new.wf()
    &&& new.id == old.id
    &&& new.capacity == old.capacity
    &&& new.width == old.width
    &&& new.height == old.height
    &&& new.size == old.size + uploads.len()
    &&& forall|g: u32|
        #[trigger] old.glyphs.contains_key(g) ==> new.glyphs.contains_key(g) && new.glyphs[g] == old.glyphs[g]
    &&& forall|u: int|
        #![trigger uploads[u]]
        0 <= u < uploads.len() ==> {
            &&& uploads[u].layer == old.size + u
            &&& !old.glyphs.contains_key(uploads[u].glyph_index)
            &&& new.glyphs.contains_key(uploads[u].glyph_index)
            &&& new.glyphs[uploads[u].glyph_index] == describe(uploads[u].glyph, uploads[u].layer)
        }
    &&& forall|g: u32|
        #[trigger] new.glyphs.contains_key(g) && !old.glyphs.contains_key(g) ==> exists|u: int|
            0 <= u < uploads.len() && (#[trigger] uploads[u]).glyph_index == g
}

/// The glyph indices of `uploads`, in order.
pub open spec fn upload_indices(uploads: Seq<GlyphUpload>) -> Seq<u32> {
    uploads.map_values(|u: GlyphUpload| u.glyph_index)
}

/// `found` with `g` added at the end, unless `known` describes it or `found`
/// has it already.
pub open spec fn add_missing(found: Seq<u32>, known: Map<u32, GlyphDescription>, g: u32) -> Seq<u32> {
    if known.contains_key(g) || found.contains(g) {
        found
    } else {
        found.push(g)
    }
}

/// The glyphs of the lines before line `i` and of line `i` before glyph `k`
/// that `known` does not describe, each once, in the order they first appear.
pub open spec fn missing_upto(lines: Seq<Vec<u32>>, known: Map<u32, GlyphDescription>, i: nat, k: nat) -> Seq<u32>
    decreases i, k,
{
    if k > 0 {
        add_missing(missing_upto(lines, known, i, (k - 1) as nat), known, lines[i as int]@[k - 1])
    } else if i > 0 {
        missing_upto(lines, known, (i - 1) as nat, lines[i - 1]@.len())
    } else {
        Seq::empty()
    }
}

/// The glyphs of `lines` that `known` does not describe, each once, in the
/// order they first appear.
pub open spec fn missing_glyphs(lines: Seq<Vec<u32>>, known: Map<u32, GlyphDescription>) -> Seq<u32> {
    missing_upto(lines, known, lines.len(), 0)
}

/// Whether `a` is the start of `b`.
pub open spec fn starts(a: Seq<u32>, b: Seq<u32>) -> bool {
    &&& a.len() <= b.len()
    &&& forall|j: int| 0 <= j < a.len() ==> #[trigger] b[j] == a[j]
}

/// Looking at more glyphs of a line only adds missing glyphs at the end.
proof fn lemma_missing_upto_grows_in_line(lines: Seq<Vec<u32>>, known: Map<u32, GlyphDescription>, i: nat, k1: nat, k2: nat)
    requires
        k1 <= k2,
    ensures
        starts(missing_upto(lines, known, i, k1), missing_upto(lines, known, i, k2)),
    decreases k2,
{
    if k1 < k2 {
        lemma_missing_upto_grows_in_line(lines, known, i, k1, (k2 - 1) as nat);
        let before = missing_upto(lines, known, i, (k2 - 1) as nat);
        let after = missing_upto(lines, known, i, k2);
        assert(after == add_missing(before, known, lines[i as int]@[k2 - 1]));
        assert(starts(before, after));
    }
}

/// Looking at more lines only adds missing glyphs at the end.
proof fn lemma_missing_upto_grows_over_lines(lines: Seq<Vec<u32>>, known: Map<u32, GlyphDescription>, i1: nat, i2: nat)
    requires
        i1 <= i2,
    ensures
        starts(missing_upto(lines, known, i1, 0), missing_upto(lines, known, i2, 0)),
    decreases i2,
{
    if i1 < i2 {
        let prev = (i2 - 1) as nat;
        lemma_missing_upto_grows_over_lines(lines, known, i1, prev);
        lemma_missing_upto_grows_in_line(lines, known, prev, 0, lines[prev as int]@.len());
        assert(missing_upto(lines, known, i2, 0) == missing_upto(lines, known, prev, lines[prev as int]@.len()));
    }
}

/// The missing glyphs found up to glyph `k` of line `i` start the missing
/// glyphs of all the lines.
proof fn lemma_missing_upto_starts_missing(lines: Seq<Vec<u32>>, known: Map<u32, GlyphDescription>, i: nat, k: nat)
    requires
        i < lines.len(),
        k <= lines[i as int]@.len(),
    ensures
        starts(missing_upto(lines, known, i, k), missing_glyphs(lines, known)),
{
    lemma_missing_upto_grows_in_line(lines, known, i, k, lines[i as int]@.len());
    lemma_missing_upto_grows_over_lines(lines, known, i + 1, lines.len());
    assert(missing_upto(lines, known, i + 1, 0) == missing_upto(lines, known, i, lines[i as int]@.len()));
}

/// Whether `upload`'s glyph is what a rendering recorded in `renders` gave:
/// its glyph index loaded with `LOAD_FLAGS` and rendered for an LCD screen.
pub open spec fn rendered_as_upload(renders: Seq<RenderRecord>, upload: GlyphUpload) -> bool {
    exists|j: int|
        0 <= j < renders.len() && (#[trigger] renders[j]).glyph_index == upload.glyph_index
            && renders[j].load_flags == LOAD_FLAGS && renders[j].mode == RenderMode::Lcd
            && glyph_from_image(renders[j].image) == Ok::<GlyphImage, RasterizeError>(upload.glyph@)
}

/// Whether `after` is `before` with records added at the end.
pub open spec fn renders_extend(before: Seq<RenderRecord>, after: Seq<RenderRecord>) -> bool {
    &&& before.len() <= after.len()
    &&& forall|j: int| 0 <= j < before.len() ==> #[trigger] after[j] == before[j]
}

/// Rasterizes into `atlas`, in the order they first appear, the glyphs of
/// `lines` it does not describe yet, each once, and returns them for upload
/// to the texture, each being what rendering its glyph index for the atlas
/// gave. Fails when a glyph cannot be rasterized, or when one must be added
/// to a full atlas; the atlas then keeps the glyphs added before.
pub fn rasterize_missing_glyphs(atlas: &mut TextureAtlas, face: &mut FontFace, lines: &Vec<Vec<u32>>) -> (r: Result<
    Vec<GlyphUpload>,
    FrameError,
>)
    requires
        old(atlas)@.wf(),
    ensures
        final(atlas)@.wf(),
        forall|g: u32|
            #[trigger] old(atlas)@.glyphs.contains_key(g) ==> final(atlas)@.glyphs.contains_key(g)
                && final(atlas)@.glyphs[g] == old(atlas)@.glyphs[g],
        final(face)@.char_indices == old(face)@.char_indices,
        renders_extend(old(face)@.renders, final(face)@.renders),
        r matches Ok(uploads) ==> {
            &&& atlas_grown_by(old(atlas)@, final(atlas)@, uploads@)
            &&& describes_all(final(atlas)@.glyphs, lines@)
            &&& upload_indices(uploads@) == missing_glyphs(lines@, old(atlas)@.glyphs)
            &&& forall|u: int| 0 <= u < uploads@.len() ==> rendered_as_upload(final(face)@.renders, #[trigger] uploads@[u])
        },
        r matches Err(e) ==> e is Rasterize || e is AtlasFull,
        r matches Err(FrameError::AtlasFull) ==> final(atlas)@.size == final(atlas)@.capacity
            && missing_glyphs(lines@, old(atlas)@.glyphs).len() > old(atlas)@.capacity - old(atlas)@.size,
        r matches Err(FrameError::Rasterize(e)) ==> exists|g: u32|
            missing_glyphs(lines@, old(atlas)@.glyphs).contains(g) && rasterize_outcome(
                final(face)@,
                g,
                Err::<GlyphImage, RasterizeError>(e),
            ),
        describes_all(old(atlas)@.glyphs, lines@) ==> (r matches Ok(uploads) && uploads@.len() == 0
            && final(atlas)@ == old(atlas)@),
{
    let ghost start = atlas@;
    let ghost face_start = face@;
    let mut uploads: Vec<GlyphUpload> = Vec::new();
    let mut i: usize = 0;
    assert(upload_indices(uploads@) =~= missing_upto(lines@, start.glyphs, 0, 0));
    while i < lines.len()
        invariant
            i <= lines@.len(),
            atlas_grown_by(start, atlas@, uploads@),
            start.wf(),
            start == old(atlas)@,
            face_start == old(face)@,
            face@.char_indices == face_start.char_indices,
            renders_extend(face_start.renders, face@.renders),
            upload_indices(uploads@) == missing_upto(lines@, start.glyphs, i as nat, 0),
            forall|u: int| 0 <= u < uploads@.len() ==> rendered_as_upload(face@.renders, #[trigger] uploads@[u]),
            describes_all(start.glyphs, lines@) ==> uploads@.len() == 0 && atlas@ == start,
            forall|j: int, m: int|
                0 <= j < i && 0 <= m < lines@[j]@.len() ==> atlas@.glyphs.contains_key(#[trigger] lines@[j]@[m]),
        decreases lines@.len() - i,
    {
        let line = &lines[i];
        let mut k: usize = 0;
        while k < line.len()
            invariant
                i < lines@.len(),
                line == lines@[i as int],
                k <= line@.len(),
                atlas_grown_by(start, atlas@, uploads@),
                start.wf(),
                start == old(atlas)@,
                face_start == old(face)@,
                face@.char_indices == face_start.char_indices,
                renders_extend(face_start.renders, face@.renders),
                upload_indices(uploads@) == missing_upto(lines@, start.glyphs, i as nat, k as nat),
                forall|u: int| 0 <= u < uploads@.len() ==> rendered_as_upload(face@.renders, #[trigger] uploads@[u]),
                describes_all(start.glyphs, lines@) ==> uploads@.len() == 0 && atlas@ == start,
                forall|j: int, m: int|
                    0 <= j < i && 0 <= m < lines@[j]@.len() ==> atlas@.glyphs.contains_key(#[trigger] lines@[j]@[m]),
                forall|m: int| 0 <= m < k ==> atlas@.glyphs.contains_key(#[trigger] line@[m]),
            decreases line@.len() - k,
        {
            let glyph_index = line[k];
            let ghost found = upload_indices(uploads@);
            proof {
                assert(missing_upto(lines@, start.glyphs, i as nat, (k + 1) as nat) == add_missing(
                    found,
                    start.glyphs,
                    glyph_index,
                ));
            }
            if atlas.lookup(glyph_index).is_none() {
                proof {
                    if describes_all(start.glyphs, lines@) {
                        assert(start.glyphs.contains_key(lines@[i as int]@[k as int]));
                    }
                    assert(!start.glyphs.contains_key(glyph_index));
                    if found.contains(glyph_index) {
                        let u = choose|u: int| 0 <= u < found.len() && found[u] == glyph_index;
                        assert(uploads@[u].glyph_index == glyph_index);
                    }
                }
                let ghost renders_before = face@.renders;
                proof {
                    lemma_missing_upto_starts_missing(lines@, start.glyphs, i as nat, (k + 1) as nat);
                    let missing = missing_glyphs(lines@, start.glyphs);
                    assert(missing[found.len() as int] == glyph_index);
                    assert(missing.len() >= found.len() + 1);
                }
                let glyph = match rasterize_glyph(glyph_index, face) {
                    Ok(glyph) => glyph,
                    Err(e) => {
                        proof {
                            let missing = missing_glyphs(lines@, start.glyphs);
                            assert(missing.contains(glyph_index));
                            assert(rasterized_view(Err::<RasterizedGlyph, RasterizeError>(e)) == Err::<GlyphImage, RasterizeError>(e));
                        }
                        return Err(FrameError::Rasterize(e));
                    },
                };
                if atlas.len() >= atlas.capacity() {
                    proof {
                        assert(found.len() == uploads@.len());
                    }
                    return Err(FrameError::AtlasFull);
                }
                let ghost before = atlas@;
                let ghost before_uploads = uploads@;
                let layer = atlas.insert(glyph_index, &glyph);
                uploads.push(GlyphUpload { glyph_index, layer, glyph });
                proof {
                    let n = before_uploads.len() as int;
                    assert(upload_indices(uploads@) =~= found.push(glyph_index));
                    assert forall|u: int| 0 <= u < uploads@.len() implies rendered_as_upload(face@.renders, #[trigger] uploads@[u]) by {
                        if u < n {
                            assert(uploads@[u] == before_uploads[u]);
                            let j = choose|j: int|
                                0 <= j < renders_before.len() && (#[trigger] renders_before[j]).glyph_index == before_uploads[u].glyph_index
                                    && renders_before[j].load_flags == LOAD_FLAGS && renders_before[j].mode == RenderMode::Lcd
                                    && glyph_from_image(renders_before[j].image) == Ok::<GlyphImage, RasterizeError>(before_uploads[u].glyph@);
                            assert(face@.renders[j] == renders_before[j]);
                        } else {
                            let j = renders_before.len() as int;
                            assert(face@.renders[j] == rendered(face@));
                        }
                    }
                    assert forall|g: u32| #[trigger] start.glyphs.contains_key(g) implies atlas@.glyphs.contains_key(g)
                        && atlas@.glyphs[g] == start.glyphs[g] by {
                        assert(before.glyphs.contains_key(g));
                    }
                    assert forall|u: int| 0 <= u < uploads@.len() implies {
                        &&& (#[trigger] uploads@[u]).layer == start.size + u
                        &&& !start.glyphs.contains_key(uploads@[u].glyph_index)
                        &&& atlas@.glyphs.contains_key(uploads@[u].glyph_index)
                        &&& atlas@.glyphs[uploads@[u].glyph_index] == describe(uploads@[u].glyph, uploads@[u].layer)
                    } by {
                        if u < n {
                            assert(uploads@[u] == before_uploads[u]);
                            assert(before.glyphs.contains_key(before_uploads[u].glyph_index));
                            assert(before_uploads[u].glyph_index != glyph_index);
                        } else {
                            assert(uploads@[u].glyph_index == glyph_index);
                        }
                    }
                    assert forall|g: u32|
                        #[trigger] atlas@.glyphs.contains_key(g) && !start.glyphs.contains_key(g) implies exists|u: int|
                            0 <= u < uploads@.len() && (#[trigger] uploads@[u]).glyph_index == g by {
                        if g == glyph_index {
                            assert(uploads@[n].glyph_index == g);
                        } else {
                            assert(before.glyphs.contains_key(g));
                            let u = choose|u: int| 0 <= u < before_uploads.len() && (#[trigger] before_uploads[u]).glyph_index == g;
                            assert(uploads@[u] == before_uploads[u]);
                        }
                    }
                    assert forall|j: int, m: int|
                        0 <= j < i && 0 <= m < lines@[j]@.len() implies atlas@.glyphs.contains_key(#[trigger] lines@[j]@[m]) by {
                        assert(before.glyphs.contains_key(lines@[j]@[m]));
                    }
                    assert forall|m: int| 0 <= m < k implies atlas@.glyphs.contains_key(#[trigger] line@[m]) by {
                        assert(before.glyphs.contains_key(line@[m]));
                    }
                }
            } else {
                proof {
                    assert(atlas@.glyphs.contains_key(glyph_index));
                    if !start.glyphs.contains_key(glyph_index) {
                        let u = choose|u: int| 0 <= u < uploads@.len() && (#[trigger] uploads@[u]).glyph_index == glyph_index;
                        assert(found[u] == glyph_index);
                        assert(found.contains(glyph_index));
                    }
                }
            }
            k = k + 1;
        }
        proof {
            assert(missing_upto(lines@, start.glyphs, (i + 1) as nat, 0) == missing_upto(
                lines@,
                start.glyphs,
                i as nat,
                lines@[i as int]@.len(),
            ));
        }
        i = i + 1;
    }
    Ok(uploads)
}

/// Whether `glyphs` holds the glyph indices `face` gave for the characters of
/// the lines drawn in a window `window_height` pixels high with lines
/// `line_height` pixels apart.
pub open spec fn visible_glyphs(
    face: FaceView,
    lines: Seq<String>,
    window_height: u32,
    line_height: u32,
    glyphs: Seq<Vec<u32>>,
) -> bool {
    let count = visible_line_count_spec(window_height, line_height);
    &&& glyphs.len() == if lines.len() < count { lines.len() as int } else { count }
    &&& glyph_indices_of(face, lines, glyphs)
}

/// Whether none of the lines drawn in a window `window_height` pixels high
/// with lines `line_height` pixels apart has a character.
pub open spec fn visible_lines_empty(lines: Seq<String>, window_height: u32, line_height: u32) -> bool {
    forall|i: int|
        0 <= i < lines.len() && i < visible_line_count_spec(window_height, line_height) ==> (
        #[trigger] lines[i])@.len() == 0
}

/// Lines without glyphs give no quads, and no overflow as long as the pen
/// stays in `i32` below the last of them.
proof fn lemma_text_quads_of_empty_lines(lines: Seq<Vec<u32>>, atlas: Map<u32, GlyphDescription>, pen_y: int, step: int)
    requires
        forall|i: int| 0 <= i < lines.len() ==> (#[trigger] lines[i])@.len() == 0,
        step > 0,
        pen_y >= 0,
        pen_y + lines.len() * step <= i32::MAX,
    ensures
        text_quads(lines, atlas, pen_y, step) is Some,
    decreases lines.len(),
{
    if lines.len() > 0 {
        assert(lines[0]@.len() == 0);
        assert(pen_y + step <= pen_y + lines.len() * step) by (nonlinear_arith)
            requires lines.len() >= 1, step > 0;
        assert((pen_y + step) + (lines.len() - 1) * step == pen_y + lines.len() * step) by (nonlinear_arith);
        let rest = lines.drop_first();
        assert forall|i: int| 0 <= i < rest.len() implies (#[trigger] rest[i])@.len() == 0 by {
            assert(rest[i] == lines[i + 1]);
        }
        lemma_text_quads_of_empty_lines(rest, atlas, pen_y + step, step);
    }
}

/// Whether a frame of `lines` needs nothing new: `face` has given the glyph
/// index of every visible character already, `atlas` describes each of those
/// glyphs, and laying them out does not overflow.
pub open spec fn frame_is_cached(
    face: FaceView,
    atlas: AtlasView,
    lines: Seq<String>,
    window_height: u32,
    line_height: u32,
) -> bool {
    exists|glyphs: Seq<Vec<u32>>|
        {
            &&& visible_glyphs(face, lines, window_height, line_height, glyphs)
            &&& describes_all(atlas.glyphs, glyphs)
            &&& text_quads(glyphs, atlas.glyphs, (line_height as i32) as int, (line_height as i32) as int) is Some
        }
}

/// The quads of lines of glyphs depend only on the glyphs each line holds.
proof fn lemma_text_quads_same_views(
    a: Seq<Vec<u32>>,
    b: Seq<Vec<u32>>,
    atlas: Map<u32, GlyphDescription>,
    pen_y: int,
    step: int,
)
    requires
        a.len() == b.len(),
        forall|i: int| 0 <= i < a.len() ==> (#[trigger] a[i])@ == b[i]@,
    ensures
        text_quads(a, atlas, pen_y, step) == text_quads(b, atlas, pen_y, step),
    decreases a.len(),
{
    if a.len() > 0 {
        assert(a[0]@ == b[0]@);
        let (ra, rb) = (a.drop_first(), b.drop_first());
        assert forall|i: int| 0 <= i < ra.len() implies (#[trigger] ra[i])@ == rb[i]@ by {
            assert(ra[i] == a[i + 1]);
            assert(rb[i] == b[i + 1]);
        }
        lemma_text_quads_same_views(ra, rb, atlas, pen_y + step, step);
    }
}

/// Lays out a frame of `lines` in a window `window_height` pixels high with
/// lines `line_height` pixels apart: the visible lines are mapped to glyph
/// indices of `face`, the glyphs the atlas lacks are rasterized into it, in
/// the order they first appear, and each glyph gets its quad. The frame
/// carries the glyph indices it used, the glyphs to upload and the quads.
/// Fails when a glyph cannot be rasterized, when the atlas is full, or when a
/// pen position overflows `i32`; succeeds when no visible line has a
/// character and the pen stays in `i32` below the last visible line.
pub fn layout_frame(
    lines: &Vec<String>,
    face: &mut FontFace,
    window_height: u32,
    line_height: u32,
    atlas: &mut TextureAtlas,
) -> (r: Result<Frame, FrameError>)
    requires
        old(atlas)@.wf(),
        line_height > 0,
        visible_line_count_spec(window_height, line_height) <= u32::MAX,
    ensures
        final(atlas)@.wf(),
        forall|g: u32|
            #[trigger] old(atlas)@.glyphs.contains_key(g) ==> final(atlas)@.glyphs.contains_key(g)
                && final(atlas)@.glyphs[g] == old(atlas)@.glyphs[g],
        char_indices_kept(old(face)@, final(face)@),
        renders_extend(old(face)@.renders, final(face)@.renders),
        r matches Ok(frame) ==> {
            &&& visible_glyphs(final(face)@, lines@, window_height, line_height, frame.glyphs@)
            &&& atlas_grown_by(old(atlas)@, final(atlas)@, frame.uploads@)
            &&& upload_indices(frame.uploads@) == missing_glyphs(frame.glyphs@, old(atlas)@.glyphs)
            &&& forall|u: int|
                0 <= u < frame.uploads@.len() ==> rendered_as_upload(final(face)@.renders, #[trigger] frame.uploads@[u])
            &&& describes_all(final(atlas)@.glyphs, frame.glyphs@)
            &&& text_quads(
                frame.glyphs@,
                final(atlas)@.glyphs,
                (line_height as i32) as int,
                (line_height as i32) as int,
            ) == Some(frame.quads@)
        },
        r matches Err(FrameError::AtlasFull) ==> final(atlas)@.size == final(atlas)@.capacity && exists|
            glyphs: Seq<Vec<u32>>,
        |
            visible_glyphs(final(face)@, lines@, window_height, line_height, glyphs)
                && missing_glyphs(glyphs, old(atlas)@.glyphs).len() > old(atlas)@.capacity - old(atlas)@.size,
        r matches Err(FrameError::Rasterize(e)) ==> exists|glyphs: Seq<Vec<u32>>, g: u32|
            {
                &&& visible_glyphs(final(face)@, lines@, window_height, line_height, glyphs)
                &&& missing_glyphs(glyphs, old(atlas)@.glyphs).contains(g)
                &&& rasterize_outcome(final(face)@, g, Err::<GlyphImage, RasterizeError>(e))
            },
        frame_is_cached(old(face)@, old(atlas)@, lines@, window_height, line_height) ==> (r matches Ok(
            frame,
        ) && frame.uploads@.len() == 0 && final(atlas)@ == old(atlas)@),
        r matches Err(FrameError::Overflow) ==> exists|glyphs: Seq<Vec<u32>>|
            {
                &&& visible_glyphs(final(face)@, lines@, window_height, line_height, glyphs)
                &&& describes_all(final(atlas)@.glyphs, glyphs)
                &&& text_quads(
                    glyphs,
                    final(atlas)@.glyphs,
                    (line_height as i32) as int,
                    (line_height as i32) as int,
                ) is None
            },
        visible_lines_empty(lines@, window_height, line_height) && line_height * (visible_line_count_spec(
            window_height,
            line_height,
        ) + 1) <= i32::MAX ==> r is Ok,
{
    let count = visible_line_count(window_height, line_height);
    let glyphs = glyph_lines(lines, face, count as usize);
    let ghost face_indexed = face@;
    proof {
        if visible_lines_empty(lines@, window_height, line_height) {
            assert forall|i: int, k: int| 0 <= i < glyphs@.len() && 0 <= k < glyphs@[i]@.len() implies old(atlas)@.glyphs.contains_key(
                #[trigger] glyphs@[i]@[k],
            ) by {
                assert(lines@[i]@.len() == 0);
            }
        }
    }
    proof {
        if frame_is_cached(old(face)@, old(atlas)@, lines@, window_height, line_height) {
            let g0 = choose|g: Seq<Vec<u32>>|
                {
                    &&& visible_glyphs(old(face)@, lines@, window_height, line_height, g)
                    &&& describes_all(old(atlas)@.glyphs, g)
                    &&& text_quads(g, old(atlas)@.glyphs, (line_height as i32) as int, (line_height as i32) as int) is Some
                };
            assert forall|i: int| 0 <= i < glyphs@.len() implies (#[trigger] glyphs@[i])@ == g0[i]@ by {
                assert forall|k: int| 0 <= k < glyphs@[i]@.len() implies glyphs@[i]@[k] == g0[i]@[k] by {
                    assert(maps_to(face@.char_indices, charcode(lines@[i]@[k]), glyphs@[i]@[k]));
                    assert(maps_to(old(face)@.char_indices, charcode(lines@[i]@[k]), g0[i]@[k]));
                }
                assert(glyphs@[i]@ =~= g0[i]@);
            }
            assert forall|i: int, k: int| 0 <= i < glyphs@.len() && 0 <= k < glyphs@[i]@.len() implies old(atlas)@.glyphs.contains_key(
                #[trigger] glyphs@[i]@[k],
            ) by {
                assert(glyphs@[i]@[k] == g0[i]@[k]);
            }
            lemma_text_quads_same_views(glyphs@, g0, old(atlas)@.glyphs, (line_height as i32) as int, (line_height as i32) as int);
        }
    }
    let uploaded = rasterize_missing_glyphs(atlas, face, &glyphs);
    proof {
        assert(glyph_indices_of(face@, lines@, glyphs@)) by {
            assert(face@.char_indices == face_indexed.char_indices);
        }
    }
    let uploads = match uploaded {
        Ok(uploads) => uploads,
        Err(e) => {
            proof {
                assert(visible_glyphs(face@, lines@, window_height, line_height, glyphs@));
            }
            return Err(e);
        },
    };
    proof {
        if visible_lines_empty(lines@, window_height, line_height) && line_height * (count + 1) <= i32::MAX {
            let n = glyphs@.len();
            assert forall|i: int| 0 <= i < n implies (#[trigger] glyphs@[i])@.len() == 0 by {
                assert(lines@[i]@.len() == 0);
            }
            assert(line_height + n * line_height <= line_height * (count + 1)) by (nonlinear_arith)
                requires n <= count, line_height > 0;
            assert((line_height as i32) as int == line_height as int);
            lemma_text_quads_of_empty_lines(glyphs@, atlas@.glyphs, line_height as int, line_height as int);
        }
    }
    let quads = match layout_glyphs(&glyphs, atlas, line_height) {
        Some(quads) => quads,
        None => return Err(FrameError::Overflow),
    };
    Ok(Frame { glyphs, uploads, quads })
}

/// The sum of the advances of the first `k` glyphs of `glyphs`.
pub open spec fn advance_sum(glyphs: Seq<u32>, atlas: Map<u32, GlyphDescription>, k: int) -> int
    decreases k,
{
    if k <= 0 || glyphs.len() == 0 {
        0
    } else {
        atlas[glyphs[0]].advance + advance_sum(glyphs.drop_first(), atlas, k - 1)
    }
}

/// A line laid out without overflow has one quad per glyph, and the quad of
/// glyph `k` stands at the pen moved right by the advances of the glyphs
/// before it.
pub proof fn lemma_line_quads_follow_pen(glyphs: Seq<u32>, atlas: Map<u32, GlyphDescription>, pen_x: int, pen_y: int)
    requires
        line_quads(glyphs, atlas, pen_x, pen_y) is Some,
    ensures
        line_quads(glyphs, atlas, pen_x, pen_y)->0.len() == glyphs.len(),
        forall|k: int|
            0 <= k < glyphs.len() ==> line_quads(glyphs, atlas, pen_x, pen_y)->0[k] == glyph_quad(
                atlas[#[trigger] glyphs[k]],
                pen_x + advance_sum(glyphs, atlas, k),
                pen_y,
            ),
    decreases glyphs.len(),
{
    if glyphs.len() > 0 {
        let d = atlas[glyphs[0]];
        let rest = glyphs.drop_first();
        lemma_line_quads_follow_pen(rest, atlas, pen_x + d.advance, pen_y);
        let q = line_quads(glyphs, atlas, pen_x, pen_y)->0;
        let r = line_quads(rest, atlas, pen_x + d.advance, pen_y)->0;
        assert(q == seq![glyph_quad(d, pen_x, pen_y)] + r);
        assert forall|k: int| 0 <= k < glyphs.len() implies q[k] == glyph_quad(
            atlas[#[trigger] glyphs[k]],
            pen_x + advance_sum(glyphs, atlas, k),
            pen_y,
        ) by {
            if k > 0 {
                assert(glyphs[k] == rest[k - 1]);
                assert(q[k] == r[k - 1]);
            }
        }
    }
}

/// Lines laid out without overflow give, line after line, the quads of each
/// line with its baseline one more `step` down: the quads of the text are
/// those of its first line followed by those of the other lines one step
/// lower.
pub proof fn lemma_text_quads_line_by_line(
    lines: Seq<Vec<u32>>,
    atlas: Map<u32, GlyphDescription>,
    pen_y: int,
    step: int,
)
    requires
        lines.len() > 0,
        text_quads(lines, atlas, pen_y, step) is Some,
    ensures
        line_quads(lines[0]@, atlas, 0, pen_y) is Some,
        text_quads(lines.drop_first(), atlas, pen_y + step, step) is Some,
        text_quads(lines, atlas, pen_y, step)->0 == line_quads(lines[0]@, atlas, 0, pen_y)->0 + text_quads(
            lines.drop_first(),
            atlas,
            pen_y + step,
            step,
        )->0,
{
}

/// Line `i` of a text laid out without overflow has its baseline `i` steps
/// below the first: its quads are those of its glyphs with the pen starting
/// at the left edge and at that height.
pub proof fn lemma_text_quads_line_baselines(
    lines: Seq<Vec<u32>>,
    atlas: Map<u32, GlyphDescription>,
    pen_y: int,
    step: int,
)
    requires
        text_quads(lines, atlas, pen_y, step) is Some,
    ensures
        forall|i: int| 0 <= i < lines.len() ==> line_quads((#[trigger] lines[i])@, atlas, 0, pen_y + i * step) is Some,
    decreases lines.len(),
{
    if lines.len() > 0 {
        let rest = lines.drop_first();
        lemma_text_quads_line_baselines(rest, atlas, pen_y + step, step);
        assert forall|i: int| 0 <= i < lines.len() implies line_quads((#[trigger] lines[i])@, atlas, 0, pen_y + i * step) is Some by {
            if i > 0 {
                assert(lines[i] == rest[i - 1]);
                assert(pen_y + step + (i - 1) * step == pen_y + i * step) by (nonlinear_arith);
            } else {
                assert(pen_y + 0 * step == pen_y) by (nonlinear_arith);
            }
        }
    }
}

/// Lines after the visible ones play no part in what a frame is said to be:
/// two texts that agree on their visible lines have the same visible glyph
/// indices, the same empty-lines condition and the same cached-frame
/// condition.
pub proof fn lemma_later_lines_unread(
    face: FaceView,
    atlas: AtlasView,
    lines: Seq<String>,
    more: Seq<String>,
    window_height: u32,
    line_height: u32,
    glyphs: Seq<Vec<u32>>,
)
    requires
        line_height > 0,
        lines.len() >= visible_line_count_spec(window_height, line_height),
        more.len() >= visible_line_count_spec(window_height, line_height),
        forall|i: int| 0 <= i < visible_line_count_spec(window_height, line_height) ==> #[trigger] lines[i] == more[i],
    ensures
        visible_glyphs(face, lines, window_height, line_height, glyphs) == visible_glyphs(
            face,
            more,
            window_height,
            line_height,
            glyphs,
        ),
        visible_lines_empty(lines, window_height, line_height) == visible_lines_empty(more, window_height, line_height),
        frame_is_cached(face, atlas, lines, window_height, line_height) == frame_is_cached(
            face,
            atlas,
            more,
            window_height,
            line_height,
        ),
{
    let count = visible_line_count_spec(window_height, line_height);
    assert forall|g: Seq<Vec<u32>>| visible_glyphs(face, lines, window_height, line_height, g) == visible_glyphs(
        face,
        more,
        window_height,
        line_height,
        g,
    ) by {
        if g.len() == count {
            assert forall|i: int| 0 <= i < g.len() implies lines[i] == more[i] by {}
        }
    }
    if visible_lines_empty(lines, window_height, line_height) {
        assert forall|i: int| 0 <= i < more.len() && i < count implies (#[trigger] more[i])@.len() == 0 by {
            assert(lines[i] == more[i]);
        }
    }
    if visible_lines_empty(more, window_height, line_height) {
        assert forall|i: int| 0 <= i < lines.len() && i < count implies (#[trigger] lines[i])@.len() == 0 by {
            assert(lines[i] == more[i]);
        }
    }
}

} // verus!
