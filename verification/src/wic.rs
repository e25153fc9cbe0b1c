//! Decoding images through WIC (Windows Imaging Component) to RGBA, for
//! app icons from PNG assets (MSIX logos). The COM calls live outside
//! this crate; the size rules are here.

use vstd::prelude::*;

verus! {

/// The largest image side that is decoded.
pub const MAX_IMAGE_SIDE: u32 = 1024u32;

/// An image is decoded only when it is not empty and at most 1024 on a side.
pub fn image_size_ok(w: u32, h: u32) -> (b: bool)
    ensures
        b == (0 < w <= MAX_IMAGE_SIDE && 0 < h <= MAX_IMAGE_SIDE),
{
    w != 0 && h != 0 && w <= MAX_IMAGE_SIDE && h <= MAX_IMAGE_SIDE
}

/// The row stride and the buffer size of a decodable RGBA image.
pub fn rgba_layout(w: u32, h: u32) -> (r: (u32, usize))
    requires
        w <= MAX_IMAGE_SIDE,
        h <= MAX_IMAGE_SIDE,
    ensures
        r.0 == w * 4,
        r.1 == w * h * 4,
{
    assert(w * h <= 1024 * 1024) by (nonlinear_arith)
        requires
            w <= 1024,
            h <= 1024,
    ;
    (w * 4, (w * h * 4) as usize)
}

} // verus!
