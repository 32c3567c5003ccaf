//! The single-channel intensity grid the planner reads and erases.

use vstd::prelude::*;
use crate::errors::ArtError;

verus! {

/// Mathematical model of an intensity grid: a `w` by `h` raster of
/// 8-bit intensities, stored row-major in `cells`.
pub struct GridModel {
    pub w: int,
    pub h: int,
    pub cells: Seq<u8>,
}

/// Well-formedness: the cell sequence covers the raster exactly.
pub open spec fn grid_wf(g: GridModel) -> bool {
    &&& g.w >= 0
    &&& g.h >= 0
    &&& g.cells.len() == g.w * g.h
}

/// Whether the cell `(x, y)` lies on the raster.
pub open spec fn grid_in_bounds(g: GridModel, x: int, y: int) -> bool {
    0 <= x < g.w && 0 <= y < g.h
}

/// Row-major index of the cell `(x, y)`.
pub open spec fn grid_index(g: GridModel, x: int, y: int) -> int {
    y * g.w + x
}

/// A row-major cell index stays inside the raster.
pub proof fn lemma_row_major(x: int, y: int, w: int, h: int)
    requires
        0 <= x < w,
        0 <= y < h,
    ensures
        0 <= y * w + x < w * h,
        y * w <= w * h,
{
    assert(0 <= y * w + x < w * h && y * w <= w * h) by (nonlinear_arith)
        requires 0 <= x < w, 0 <= y < h;
}

/// A 2D grid of 8-bit intensity values, dimensions `width` by `height`,
/// stored row-major. Mutated in place, pixel by pixel, during planning.
#[derive(Debug)]
pub struct IntensityGrid {
    data: Vec<u8>,
    width: usize,
    height: usize,
}

impl View for IntensityGrid {
    type V = GridModel;

    closed spec fn view(&self) -> GridModel {
        GridModel { w: self.width as int, h: self.height as int, cells: self.data@ }
    }
}

impl IntensityGrid {
    /// Builds a grid from raw row-major luma bytes. Rejects data whose
    /// length does not match the dimensions.
    pub fn from_raw(width: u32, height: u32, data: Vec<u8>) -> (r: Result<IntensityGrid, ArtError>)
        ensures
            (r is Ok) <==> data@.len() == width as int * height as int,
            r is Err ==> r->Err_0 == ArtError::InvalidArgument,
            r is Ok ==> r->Ok_0@ == (GridModel {
                w: width as int,
                h: height as int,
                cells: data@,
            }),
            r is Ok ==> grid_wf(r->Ok_0@),
    {
        proof {
            assert(width as u64 * height as u64 == width as int * height as int)
                by (nonlinear_arith)
                requires width < 0x1_0000_0000u64, height < 0x1_0000_0000u64;
            assert((width as u64 * height as u64) < 0xffff_ffff_ffff_ffffu64)
                by (nonlinear_arith)
                requires width < 0x1_0000_0000u64, height < 0x1_0000_0000u64;
        }
        if data.len() as u64 == (width as u64) * (height as u64) {
            Ok(IntensityGrid { data, width: width as usize, height: height as usize })
        } else {
            Err(ArtError::InvalidArgument)
        }
    }

    /// Width of the grid in pixels.
    pub fn width(&self) -> (r: usize)
        ensures
            r == self@.w,
    {
        self.width
    }

    /// Height of the grid in pixels.
    pub fn height(&self) -> (r: usize)
        ensures
            r == self@.h,
    {
        self.height
    }

    /// The intensity at `(x, y)`, or `None` when the coordinates fall
    /// outside the raster.
    pub fn sample(&self, x: i64, y: i64) -> (r: Option<u8>)
        requires
            grid_wf(self@),
        ensures
            grid_in_bounds(self@, x as int, y as int)
                ==> r == Some(self@.cells[grid_index(self@, x as int, y as int)]),
            !grid_in_bounds(self@, x as int, y as int) ==> r is None,
    {
        if 0 <= x && 0 <= y && (x as u64) < (self.width as u64) && (y as u64) < (self.height as u64)
        {
            let xi: usize = x as usize;
            let yi: usize = y as usize;
            let n: usize = self.data.len();
            proof {
                lemma_row_major(xi as int, yi as int, self.width as int, self.height as int);
            }
            Some(self.data[yi * self.width + xi])
        } else {
            None
        }
    }

    /// Overwrites the intensity at in-bounds coordinates `(x, y)`.
    pub fn put(&mut self, x: usize, y: usize, v: u8)
        requires
            grid_wf(old(self)@),
            grid_in_bounds(old(self)@, x as int, y as int),
        ensures
            final(self)@ == (GridModel {
                cells: old(self)@.cells.update(grid_index(old(self)@, x as int, y as int), v),
                ..old(self)@
            }),
            grid_wf(final(self)@),
    {
        let n: usize = self.data.len();
        proof {
            lemma_row_major(x as int, y as int, self.width as int, self.height as int);
        }
        let idx: usize = y * self.width + x;
        self.data.set(idx, v);
    }
}

} // verus!
