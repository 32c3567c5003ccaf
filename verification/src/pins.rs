//! Pin layout along the frame boundary.
//!
//! A pin is an anchor point in canvas coordinates. The square layout is
//! computed here with exact integer arithmetic: pin `i` sits at
//! perimeter-arc-length `perimeter * i / count`, measured clockwise from
//! the top-left corner, walking top edge, right edge, bottom edge, then
//! left edge; coordinates are the floor of the exact rational position.

use vstd::prelude::*;
use vstd::arithmetic::div_mod::{
    lemma_div_of0, lemma_div_pos_is_pos, lemma_multiply_divide_le, lemma_multiply_divide_lt,
};
use crate::errors::ArtError;

verus! {

/// The closed enumeration of supported boundary shapes.
#[derive(Clone, Copy, Debug, PartialEq, Eq, Structural)]
pub enum Shape {
    Circle,
    Square,
}

/// An anchor point on the frame, in whole canvas pixels.
///
/// The planner rasterizes threads between whole-pixel endpoints, so pins
/// carry the integer coordinates it consumes.
#[derive(Clone, Copy, Debug, PartialEq, Eq, Structural)]
pub struct Pin {
    pub x: i32,
    pub y: i32,
}

/// The coordinate pair of a pin, as mathematical integers.
pub open spec fn pin_pos(p: Pin) -> (int, int) {
    (p.x as int, p.y as int)
}

/// Total boundary length of a `w` by `h` frame.
pub open spec fn square_perimeter(w: int, h: int) -> int {
    2 * (w + h)
}

/// Arc-length position of pin `i`, scaled by `count`: the exact position
/// along the boundary is `square_arc_num(w, h, count, i) / count`.
pub open spec fn square_arc_num(w: int, h: int, count: int, i: int) -> int {
    square_perimeter(w, h) * i
}

/// The exact square-layout position of pin `i`: walk the scaled arc
/// length `num` clockwise around the boundary and floor the resulting
/// coordinate (`num` and the edge breakpoints are all scaled by `count`,
/// so each coordinate is a floor of an exact rational).
pub open spec fn square_pin_spec(w: int, h: int, count: int, i: int) -> (int, int) {
    let num = square_arc_num(w, h, count, i);
    if num < w * count {
        (num / count, 0)
    } else if num < (w + h) * count {
        (w, (num - w * count) / count)
    } else if num < (2 * w + h) * count {
        (((2 * w + h) * count - num) / count, h)
    } else {
        (0, (square_perimeter(w, h) * count - num) / count)
    }
}

/// Pins along the square boundary of a `width` by `height` canvas.
///
/// Rejects a pin count of zero (the arc-length formula divides by the
/// count) and dimensions beyond `i32::MAX` (pin coordinates are `i32`).
pub fn generate_square_pins(count: u32, width: u32, height: u32) -> (r: Result<Vec<Pin>, ArtError>)
    ensures
        (r is Err) <==> (count == 0 || width > 0x7fff_ffff || height > 0x7fff_ffff),
        r is Err ==> r->Err_0 == ArtError::InvalidArgument,
        r is Ok ==> r->Ok_0@.len() == count,
        r is Ok ==> forall|i: int| 0 <= i < count ==>
            pin_pos(#[trigger] r->Ok_0@[i])
                == square_pin_spec(width as int, height as int, count as int, i),
{
    if count == 0 || width > 0x7fff_ffff || height > 0x7fff_ffff {
        return Err(ArtError::InvalidArgument);
    }
    let wq: u128 = width as u128;
    let hq: u128 = height as u128;
    let nq: u128 = count as u128;
    let mut pins: Vec<Pin> = Vec::new();
    let mut i: u32 = 0;
    while i < count
        invariant
            count >= 1,
            i <= count,
            wq == width as u128,
            hq == height as u128,
            nq == count as u128,
            width <= 0x7fff_ffff,
            height <= 0x7fff_ffff,
            pins@.len() == i,
            forall|k: int| 0 <= k < i ==>
                pin_pos(#[trigger] pins@[k])
                    == square_pin_spec(width as int, height as int, count as int, k),
        decreases count - i,
    {
        proof {
            assert((2 * (wq + hq)) * (i as u128) <= 0x4_0000_0000u128 * 0x1_0000_0000u128)
                by (nonlinear_arith)
                requires 2 * (wq + hq) <= 0x4_0000_0000u128, i as u128 <= 0x1_0000_0000u128;
            assert(wq * nq <= 0x8000_0000u128 * 0x1_0000_0000u128) by (nonlinear_arith)
                requires wq <= 0x8000_0000u128, nq <= 0x1_0000_0000u128;
            assert(hq * nq <= 0x8000_0000u128 * 0x1_0000_0000u128) by (nonlinear_arith)
                requires hq <= 0x8000_0000u128, nq <= 0x1_0000_0000u128;
            assert((wq + hq) * nq == wq * nq + hq * nq) by (nonlinear_arith);
            assert((2 * wq + hq) * nq == wq * nq + wq * nq + hq * nq) by (nonlinear_arith);
            assert((2 * (wq + hq)) * nq == wq * nq + wq * nq + hq * nq + hq * nq)
                by (nonlinear_arith);
        }
        let per: u128 = 2 * (wq + hq);
        let num: u128 = per * (i as u128);
        let p: Pin;
        if num < wq * nq {
            let x: u128 = num / nq;
            proof {
                lemma_multiply_divide_lt(num as int, nq as int, wq as int);
                assert(nq as int * wq as int == wq as int * nq as int) by (nonlinear_arith);
            }
            p = Pin { x: x as i32, y: 0 };
        } else if num < (wq + hq) * nq {
            let y: u128 = (num - wq * nq) / nq;
            proof {
                lemma_multiply_divide_lt((num - wq * nq) as int, nq as int, hq as int);
                assert(nq as int * hq as int == hq as int * nq as int) by (nonlinear_arith);
            }
            p = Pin { x: width as i32, y: y as i32 };
        } else if num < (2 * wq + hq) * nq {
            let x: u128 = ((2 * wq + hq) * nq - num) / nq;
            proof {
                // numerator <= wq * nq, so the quotient is at most wq
                assert(((2 * wq + hq) * nq - num) < (wq + 1) * nq) by (nonlinear_arith)
                    requires
                        num >= (wq + hq) * nq,
                        (wq + hq) * nq == wq * nq + hq * nq,
                        (2 * wq + hq) * nq == wq * nq + wq * nq + hq * nq,
                        nq >= 1;
                lemma_multiply_divide_lt(((2 * wq + hq) * nq - num) as int, nq as int, (wq + 1) as int);
                assert(nq as int * (wq + 1) as int == (wq + 1) as int * nq as int)
                    by (nonlinear_arith);
            }
            p = Pin { x: x as i32, y: height as i32 };
        } else {
            proof {
                // num == per * i <= per * nq since i < count
                assert(per * (i as u128) <= per * nq) by (nonlinear_arith)
                    requires i as u128 <= nq;
            }
            let y: u128 = (per * nq - num) / nq;
            proof {
                assert((per * nq - num) < (hq + 1) * nq) by (nonlinear_arith)
                    requires
                        num >= (2 * wq + hq) * nq,
                        (2 * wq + hq) * nq == wq * nq + wq * nq + hq * nq,
                        per * nq == wq * nq + wq * nq + hq * nq + hq * nq,
                        nq >= 1;
                lemma_multiply_divide_lt((per * nq - num) as int, nq as int, (hq + 1) as int);
                assert(nq as int * (hq + 1) as int == (hq + 1) as int * nq as int)
                    by (nonlinear_arith);
            }
            p = Pin { x: 0, y: y as i32 };
        }
        pins.push(p);
        proof {
            assert(pin_pos(pins@[i as int])
                == square_pin_spec(width as int, height as int, count as int, i as int));
        }
        i = i + 1;
    }
    Ok(pins)
}

/// Law: the square layout's pin 0 sits at the top-left corner `(0, 0)`.
pub proof fn lemma_square_first_pin(w: int, h: int, count: int)
    requires
        count >= 1,
        w >= 0,
        h >= 0,
    ensures
        square_pin_spec(w, h, count, 0) == (0int, 0int),
{
    lemma_div_of0(count);
    assert(square_arc_num(w, h, count, 0) == 0) by (nonlinear_arith);
    assert(w >= 1 ==> 0 < w * count) by (nonlinear_arith)
        requires count >= 1, w >= 0;
    assert(w == 0 && h >= 1 ==> w * count == 0 && 0 < (w + h) * count) by (nonlinear_arith)
        requires count >= 1, w >= 0, h >= 0;
    assert(w == 0 && h == 0 ==> (w + h) * count == 0 && (2 * w + h) * count == 0
        && square_perimeter(w, h) * count == 0) by (nonlinear_arith);
}

/// Invariant: every square-layout pin lies within the frame,
/// `[0, w]` by `[0, h]`.
pub proof fn lemma_square_pin_in_frame(w: int, h: int, count: int, i: int)
    requires
        count >= 1,
        0 <= i < count,
        w >= 0,
        h >= 0,
    ensures
        0 <= square_pin_spec(w, h, count, i).0 <= w,
        0 <= square_pin_spec(w, h, count, i).1 <= h,
{
    let num = square_arc_num(w, h, count, i);
    assert(0 <= num) by (nonlinear_arith)
        requires w >= 0, h >= 0, 0 <= i, num == 2 * (w + h) * i;
    assert(num <= 2 * (w + h) * count) by (nonlinear_arith)
        requires w >= 0, h >= 0, i < count, num == 2 * (w + h) * i;
    assert((w + h) * count == w * count + h * count) by (nonlinear_arith);
    assert((2 * w + h) * count == w * count + w * count + h * count) by (nonlinear_arith);
    assert(2 * (w + h) * count == w * count + w * count + h * count + h * count)
        by (nonlinear_arith);
    if num < w * count {
        lemma_div_pos_is_pos(num, count);
        lemma_multiply_divide_lt(num, count, w);
        assert(count * w == w * count) by (nonlinear_arith);
    } else if num < (w + h) * count {
        lemma_div_pos_is_pos(num - w * count, count);
        lemma_multiply_divide_lt(num - w * count, count, h);
        assert(count * h == h * count) by (nonlinear_arith);
    } else if num < (2 * w + h) * count {
        lemma_div_pos_is_pos((2 * w + h) * count - num, count);
        lemma_multiply_divide_le((2 * w + h) * count - num, count, w);
        assert(count * w == w * count) by (nonlinear_arith);
    } else {
        lemma_div_pos_is_pos(2 * (w + h) * count - num, count);
        lemma_multiply_divide_le(2 * (w + h) * count - num, count, h);
        assert(count * h == h * count) by (nonlinear_arith);
    }
}

/// Law: pins progress strictly clockwise with arc-length spacing of
/// exactly one perimeter per step. In units of `1 / count` of a pixel,
/// pin `i + 1` sits exactly `perimeter` further along the boundary than
/// pin `i`, and strictly further whenever the frame is non-degenerate.
pub proof fn lemma_square_arc_spacing(w: int, h: int, count: int, i: int)
    requires
        count >= 1,
        0 <= i,
        w >= 0,
        h >= 0,
    ensures
        square_arc_num(w, h, count, i + 1) - square_arc_num(w, h, count, i)
            == square_perimeter(w, h),
        w + h >= 1 ==> square_arc_num(w, h, count, i + 1) > square_arc_num(w, h, count, i),
{
    assert(2 * (w + h) * (i + 1) - 2 * (w + h) * i == 2 * (w + h)) by (nonlinear_arith);
}

} // verus!
