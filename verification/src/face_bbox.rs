//! The size in pixels of the largest glyph of a face: its bounding box over
//! all glyphs, scaled to the face's current size.
use crate::font::{FaceView, FontFace};
use vstd::prelude::*;

verus! {

/// Integer division rounding toward zero, as Rust's `/` does, by a positive
/// divisor.
pub open spec fn div_toward_zero(a: int, d: int) -> int
    recommends
        d > 0,
{
    if a >= 0 {
        a / d
    } else {
        -((-a) / d)
    }
}

/// Dividing toward zero by a positive divisor gives the quotient whose
/// multiple lies between zero and the dividend, less than one divisor away.
pub proof fn lemma_div_toward_zero_bounds(a: int, d: int)
    requires
        d > 0,
    ensures
        a >= 0 ==> 0 <= div_toward_zero(a, d) * d <= a < div_toward_zero(a, d) * d + d,
        a < 0 ==> div_toward_zero(a, d) * d - d < a <= div_toward_zero(a, d) * d <= 0,
{
    if a >= 0 {
        vstd::arithmetic::div_mod::lemma_fundamental_div_mod(a, d);
        let q = a / d;
        assert(q >= 0) by {
            vstd::arithmetic::div_mod::lemma_div_pos_is_pos(a, d);
        }
        assert(d * q == q * d) by (nonlinear_arith);
        assert(0 <= q * d) by (nonlinear_arith)
            requires q >= 0, d > 0;
    } else {
        let b = -a;
        vstd::arithmetic::div_mod::lemma_fundamental_div_mod(b, d);
        let q = b / d;
        assert(q >= 0) by {
            vstd::arithmetic::div_mod::lemma_div_pos_is_pos(b, d);
        }
        assert(d * q == q * d) by (nonlinear_arith);
        assert((-q) * d == -(q * d)) by (nonlinear_arith);
        assert(0 <= q * d) by (nonlinear_arith)
            requires q >= 0, d > 0;
    }
}

/// Whether `v` fits an `i64`.
pub open spec fn fits_i64(v: int) -> bool {
    i64::MIN <= v <= i64::MAX
}

/// Whether the extent from `min` to `max` font units, scaled by `scale`
/// (16.16 fixed point), can be computed in `i64` arithmetic.
pub open spec fn extent_computable(min: i64, max: i64, scale: i64) -> bool {
    &&& fits_i64(max - min)
    &&& fits_i64((max - min) * scale)
}

/// The extent from `min` to `max` font units in whole pixels: scaled by the
/// 16.16 factor `scale` into 26.6 pixels, then divided by 64, each division
/// rounding toward zero.
pub open spec fn pixel_extent(min: i64, max: i64, scale: i64) -> int {
    div_toward_zero(div_toward_zero((max - min) * scale, 0x10000), 64)
}

/// `(a / 0x10000) / 64` in `i64`, rounding toward zero each time.
fn scale_down(a: i64) -> (r: i64)
    ensures
        r == div_toward_zero(div_toward_zero(a as int, 0x10000), 64),
{
    let q: i64 = a / 0x10000;
    assert(q == div_toward_zero(a as int, 0x10000));
    let r: i64 = q / 64;
    assert(r == div_toward_zero(q as int, 64));
    r
}

/// The face's largest glyph size in pixels, from its bounding box in font
/// units and the scales of its current size; each extent is cut to its low
/// 32 bits as `u32`.
pub fn bbox_pixels(x_min: i64, y_min: i64, x_max: i64, y_max: i64, x_scale: i64, y_scale: i64) -> (r: (
    u32,
    u32,
))
    requires
        extent_computable(x_min, x_max, x_scale),
        extent_computable(y_min, y_max, y_scale),
    ensures
        r.0 == pixel_extent(x_min, x_max, x_scale) as u32,
        r.1 == pixel_extent(y_min, y_max, y_scale) as u32,
{
    let width_units: i64 = x_max - x_min;
    let height_units: i64 = y_max - y_min;
    let width_pixels: i64 = scale_down(width_units * x_scale);
    let height_pixels: i64 = scale_down(height_units * y_scale);
    (#[verifier::truncate] (width_pixels as u32), #[verifier::truncate] (height_pixels as u32))
}

/// The size in pixels of the largest glyph, from the face's bounding box in
/// font units and the scales of its size: `None` when the face has no size
/// or when the computation would overflow `i64`.
pub open spec fn bbox_from_metrics_spec(
    x_min: i64,
    y_min: i64,
    x_max: i64,
    y_max: i64,
    scales: Option<(i64, i64)>,
) -> Option<(u32, u32)> {
    match scales {
        Some((x_scale, y_scale)) => if extent_computable(x_min, x_max, x_scale) && extent_computable(
            y_min,
            y_max,
            y_scale,
        ) {
            Some(
                (pixel_extent(x_min, x_max, x_scale) as u32, pixel_extent(y_min, y_max, y_scale) as u32),
            )
        } else {
            None
        },
        None => None,
    }
}

/// The size in pixels of the largest glyph, from the face's bounding box in
/// font units and the scales of its size, if it has one (see
/// `bbox_from_metrics_spec`).
pub fn bbox_from_metrics(x_min: i64, y_min: i64, x_max: i64, y_max: i64, scales: Option<(i64, i64)>) -> (r:
    Option<(u32, u32)>)
    ensures
        r == bbox_from_metrics_spec(x_min, y_min, x_max, y_max, scales),
        match scales {
            Some((x_scale, y_scale)) => if extent_computable(x_min, x_max, x_scale) && extent_computable(
                y_min,
                y_max,
                y_scale,
            ) {
                r matches Some((width, height)) && width == pixel_extent(x_min, x_max, x_scale) as u32
                    && height == pixel_extent(y_min, y_max, y_scale) as u32
            } else {
                r is None
            },
            None => r is None,
        },
{
    let (x_scale, y_scale) = match scales {
        Some(scales) => scales,
        None => return None,
    };
    let width_units = match x_max.checked_sub(x_min) {
        Some(w) => w,
        None => return None,
    };
    let height_units = match y_max.checked_sub(y_min) {
        Some(h) => h,
        None => return None,
    };
    if width_units.checked_mul(x_scale).is_none() || height_units.checked_mul(y_scale).is_none() {
        return None;
    }
    Some(bbox_pixels(x_min, y_min, x_max, y_max, x_scale, y_scale))
}

/// The width is the horizontal extent and the height the vertical one: when
/// the face has a size and nothing overflows, the first component is the
/// scaled width of the box and the second its scaled height, each in whole
/// pixels rounded toward zero.
pub proof fn lemma_bbox_width_then_height(x_min: i64, y_min: i64, x_max: i64, y_max: i64, x_scale: i64, y_scale: i64)
    requires
        extent_computable(x_min, x_max, x_scale),
        extent_computable(y_min, y_max, y_scale),
    ensures
        bbox_from_metrics_spec(x_min, y_min, x_max, y_max, Some((x_scale, y_scale))) == Some(
            (
                div_toward_zero(div_toward_zero((x_max - x_min) * x_scale, 0x10000), 64) as u32,
                div_toward_zero(div_toward_zero((y_max - y_min) * y_scale, 0x10000), 64) as u32,
            ),
        ),
        bbox_from_metrics_spec(x_min, y_min, x_max, y_max, None) is None,
{
}

/// The size in pixels of the largest glyph of `face` at its current size,
/// from the bounding box and scales recorded of it.
pub open spec fn face_bbox_spec(face: FaceView) -> Option<(u32, u32)> {
    let (x_min, y_min, x_max, y_max) = face.bbox->0;
    bbox_from_metrics_spec(x_min, y_min, x_max, y_max, face.scales->0)
}

/// The size in pixels of the largest glyph of `face` at its current size, as
/// `bbox_from_metrics` computes it from the face's bounding box and the
/// scales of its size, both of which the face records.
pub fn face_bbox(face: &mut FontFace) -> (r: Option<(u32, u32)>)
    ensures
        final(face)@ == (FaceView { bbox: final(face)@.bbox, scales: final(face)@.scales, ..old(face)@ }),
        final(face)@.bbox is Some,
        final(face)@.scales is Some,
        old(face)@.bbox is Some ==> final(face)@.bbox == old(face)@.bbox,
        old(face)@.scales is Some ==> final(face)@.scales == old(face)@.scales,
        r == face_bbox_spec(final(face)@),
        ({
            let (x_min, y_min, x_max, y_max) = final(face)@.bbox->0;
            match final(face)@.scales->0 {
                Some((x_scale, y_scale)) => if extent_computable(x_min, x_max, x_scale) && extent_computable(
                    y_min,
                    y_max,
                    y_scale,
                ) {
                    r matches Some((width, height)) && width == pixel_extent(x_min, x_max, x_scale) as u32
                        && height == pixel_extent(y_min, y_max, y_scale) as u32
                } else {
                    r is None
                },
                None => r is None,
            }
        }),
{
    let (x_min, y_min, x_max, y_max) = face.raw_bbox();
    let scales = face.size_scales();
    bbox_from_metrics(x_min, y_min, x_max, y_max, scales)
}

} // verus!
