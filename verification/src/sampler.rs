//! Raw band sampler decisions.
//!
//! The unverified shell computes fractional source-pixel coordinates with
//! floating-point arithmetic and hands their floor/ceiling here as plain
//! integers. This module makes the integer decisions: clamping the source
//! rectangle of a pixel-space read to the image, and bounds-checking a
//! single-pixel query.

use vstd::prelude::*;

verus! {

/// The larger of two mathematical integers.
pub open spec fn maxi(a: int, b: int) -> int {
    if a >= b {
        a
    } else {
        b
    }
}

/// The smaller of two mathematical integers.
pub open spec fn mini(a: int, b: int) -> int {
    if a <= b {
        a
    } else {
        b
    }
}

/// Clamp a requested source-pixel rectangle to an image of
/// `img_width` × `img_height` pixels.
///
/// `src_x`/`src_y` are the floors of the requested west/north edge,
/// `src_x_end`/`src_y_end` the ceilings of the east/south edge. The west and
/// north edges are clamped to 0, the east and south edges to the image
/// size, and each extent is forced to at least one pixel. A rectangle whose
/// clamped origin lies at or beyond the image returns `None`: the caller
/// renders an all-zero (fully transparent) grid instead of reading.
pub fn clamp_source_window(
    src_x: i64,
    src_y: i64,
    src_x_end: i64,
    src_y_end: i64,
    img_width: usize,
    img_height: usize,
) -> (r: Option<(usize, usize, usize, usize)>)
    ensures
        r is Some <==> maxi(src_x as int, 0) < img_width && maxi(src_y as int, 0) < img_height,
        r is Some ==> {
            let x0 = maxi(src_x as int, 0);
            let y0 = maxi(src_y as int, 0);
            &&& r.unwrap().0 == x0
            &&& r.unwrap().1 == y0
            &&& r.unwrap().2 == maxi(mini(src_x_end as int, img_width as int) - x0, 1)
            &&& r.unwrap().3 == maxi(mini(src_y_end as int, img_height as int) - y0, 1)
        },
{
    let x0: i128 = if src_x > 0 {
        src_x as i128
    } else {
        0
    };
    let y0: i128 = if src_y > 0 {
        src_y as i128
    } else {
        0
    };
    let x1: i128 = if (src_x_end as i128) < (img_width as i128) {
        src_x_end as i128
    } else {
        img_width as i128
    };
    let y1: i128 = if (src_y_end as i128) < (img_height as i128) {
        src_y_end as i128
    } else {
        img_height as i128
    };
    let w: i128 = if x1 - x0 > 1 {
        x1 - x0
    } else {
        1
    };
    let h: i128 = if y1 - y0 > 1 {
        y1 - y0
    } else {
        1
    };
    if x0 >= img_width as i128 || y0 >= img_height as i128 {
        None
    } else {
        Some((x0 as usize, y0 as usize, w as usize, h as usize))
    }
}

/// Whether pixel (px, py) lies inside an image of `width` × `height`
/// pixels. Out-of-range queries are not errors: callers answer them with an
/// explicitly invalid result instead of failing.
pub fn pixel_in_bounds(px: i64, py: i64, width: usize, height: usize) -> (r: bool)
    ensures
        r == (0 <= px < width && 0 <= py < height),
{
    px >= 0 && (px as u64) < (width as u64) && py >= 0 && (py as u64) < (height as u64)
}

} // verus!
