//! Pan/zoom view parameters and the crop-rectangle computation.
//!
//! The zoom factor is an exact positive rational `zoom_num / zoom_den`;
//! offsets are whole canvas pixels. For each axis the crop start is the
//! clamped, floored source coordinate of the view origin, the crop
//! length is the floored span of the view clamped into the source and
//! raised to at least one pixel, and the start is re-clamped so the
//! rectangle stays within the source.

use vstd::prelude::*;

verus! {

/// The caller's pan/zoom selection: zoom is `zoom_num / zoom_den`,
/// offsets are the canvas-space translation of the source image.
#[derive(Clone, Copy, Debug, PartialEq, Eq, Structural)]
pub struct ViewParams {
    pub zoom_num: u32,
    pub zoom_den: u32,
    pub offset_x: i64,
    pub offset_y: i64,
}

/// One axis of the crop computation, exactly: `start0` is the floored,
/// non-negative source coordinate of the view origin; `len` is the
/// floored view span clamped into the source and raised to at least 1;
/// `start` is re-clamped so `start + len <= src`.
pub open spec fn crop_axis_spec(src: int, canvas: int, offset: int, zn: int, zd: int) -> (int, int) {
    let start0 = if offset >= 0 { 0 } else { (-offset) * zd / zn };
    let len0 = canvas * zd / zn;
    let len1 = if len0 <= src - start0 { len0 } else { src - start0 };
    let len = if len1 >= 1 { len1 } else { 1 };
    let start = if start0 <= src - len { start0 } else { src - len };
    (start, len)
}

/// Computes one axis of the crop rectangle with exact integer
/// arithmetic. The resulting span always lies within the source axis.
pub fn crop_axis(src: u32, canvas: u32, offset: i64, zn: u32, zd: u32) -> (r: (u32, u32))
    requires
        zn >= 1,
        zd >= 1,
        src >= 1,
    ensures
        (r.0 as int, r.1 as int)
            == crop_axis_spec(src as int, canvas as int, offset as int, zn as int, zd as int),
        r.0 as int + r.1 as int <= src,
        r.1 >= 1,
{
    let znq: u128 = zn as u128;
    let zdq: u128 = zd as u128;
    let start0_u: u128 = if offset >= 0 {
        0
    } else {
        let mag: u128 = (-(offset as i128)) as u128;
        proof {
            assert(mag * zdq <= 0x8000_0000_0000_0000u128 * 0x1_0000_0000u128)
                by (nonlinear_arith)
                requires mag <= 0x8000_0000_0000_0000u128, zdq <= 0x1_0000_0000u128;
        }
        (mag * zdq) / znq
    };
    proof {
        assert((canvas as u128) * zdq <= 0x1_0000_0000u128 * 0x1_0000_0000u128)
            by (nonlinear_arith)
            requires canvas as u128 <= 0x1_0000_0000u128, zdq <= 0x1_0000_0000u128;
    }
    let len0_u: u128 = ((canvas as u128) * zdq) / znq;
    let s: i128 = src as i128;
    let start0: i128 = start0_u as i128;
    let len0: i128 = len0_u as i128;
    let len1: i128 = if len0 <= s - start0 { len0 } else { s - start0 };
    let len: i128 = if len1 >= 1 { len1 } else { 1 };
    let start: i128 = if start0 <= s - len { start0 } else { s - len };
    ((start as u32), (len as u32))
}

} // verus!
