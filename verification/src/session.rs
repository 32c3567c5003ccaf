//! The session: the explicit state a caller owns across operations.
//!
//! A session holds the decoded source image (cached after the first
//! successful decode; later byte payloads are ignored) and the intensity
//! grid the most recent preprocessing call produced. Planning reads and
//! mutates the grid in place.

use vstd::prelude::*;
use crate::errors::ArtError;
use crate::grid::{GridModel, IntensityGrid, grid_wf};
use crate::pins::Pin;
use crate::planner::{pin_coords_in_range, pin_in_range, plan_path, plan_spec, path_ints};
use crate::viewport::{ViewParams, crop_axis};

verus! {

#[verifier::external_type_specification]
#[verifier::external_body]
pub struct ExDynamicImage(image::DynamicImage);

#[verifier::external_type_specification]
#[verifier::external_body]
pub struct ExImageError(image::ImageError);

/// The outcome of decoding a byte payload: the decoded raster's
/// dimensions when the bytes are a recognized raster format, `None`
/// when they are not. Decoding is a function of the bytes alone.
pub uninterp spec fn decode_dims(data: Seq<u8>) -> Option<(u32, u32)>;

/// Relies on `image::load_from_memory` (and the decoded image's `width`
/// and `height` getters): decoding depends on the byte payload alone,
/// succeeds exactly on recognized raster bytes, and the returned
/// dimensions are the decoded raster's.
#[verifier::external_body]
fn decode_image(data: &[u8]) -> (r: Result<(image::DynamicImage, u32, u32), image::ImageError>)
    ensures
        (r is Ok) <==> (decode_dims(data@) is Some),
        r is Ok ==> decode_dims(data@) == Some((r->Ok_0.1, r->Ok_0.2)),
{
    match image::load_from_memory(data) {
        Ok(img) => {
            let w = img.width();
            let h = img.height();
            Ok((img, w, h))
        },
        Err(e) => Err(e),
    }
}

/// Relies on `image::DynamicImage::crop_imm`: cuts the given rectangle
/// out of the image.
#[verifier::external_body]
fn crop_image(img: &image::DynamicImage, x: u32, y: u32, w: u32, h: u32) -> (r: image::DynamicImage) {
    img.crop_imm(x, y, w, h)
}

/// Relies on `image::DynamicImage::resize_exact` (the output raster has
/// exactly the requested dimensions, triangle-filtered) and on
/// `to_luma8` / `into_raw` (dimension-preserving conversion to one
/// row-major luma byte per pixel). The subpixel count of the
/// intermediate buffer — at most four per pixel — must fit in `usize`,
/// or the buffer constructor panics.
#[verifier::external_body]
fn resize_to_luma(img: &image::DynamicImage, out_w: u32, out_h: u32) -> (r: Vec<u8>)
    requires
        out_w >= 1,
        out_h >= 1,
        out_w as int * out_h as int * 4 <= usize::MAX as int,
    ensures
        r@.len() == out_w as int * out_h as int,
{
    img.resize_exact(out_w, out_h, image::imageops::FilterType::Triangle).to_luma8().into_raw()
}

/// The decoded original raster, kept across calls so repeated
/// preprocessing does not re-decode.
struct SourceImage {
    image: image::DynamicImage,
    width: u32,
    height: u32,
}

/// Explicit per-caller state: the cached source image and the intensity
/// grid the planner works on.
pub struct ArtSession {
    source: Option<SourceImage>,
    grid: Option<IntensityGrid>,
}

impl ArtSession {
    /// Whether a source image has been decoded and cached.
    pub closed spec fn has_source(self) -> bool {
        self.source is Some
    }

    /// Width of the cached source image.
    pub closed spec fn src_w(self) -> int {
        self.source->Some_0.width as int
    }

    /// Height of the cached source image.
    pub closed spec fn src_h(self) -> int {
        self.source->Some_0.height as int
    }

    /// The stored intensity grid, if preprocessing has produced one.
    pub closed spec fn grid(self) -> Option<GridModel> {
        match self.grid {
            Some(g) => Some(g@),
            None => None,
        }
    }

    /// Any stored grid is well-formed, and a cached source image always
    /// has non-zero dimensions (a degenerate decode is never cached).
    pub open spec fn wf(self) -> bool {
        &&& (self.grid() is Some ==> grid_wf(self.grid()->Some_0))
        &&& (self.has_source() ==> self.src_w() >= 1 && self.src_h() >= 1)
    }

    /// A fresh session: nothing decoded, no grid.
    pub fn new() -> (r: ArtSession)
        ensures
            !r.has_source(),
            r.grid() is None,
            r.wf(),
    {
        ArtSession { source: None, grid: None }
    }

    /// Installs an externally produced intensity grid, replacing any
    /// stored one. This is the injected "decode to luma grid"
    /// capability's entry point: any provider of raw luma rasters can
    /// feed the planner through it.
    pub fn install_grid(&mut self, g: IntensityGrid)
        requires
            old(self).wf(),
            grid_wf(g@),
        ensures
            final(self).grid() == Some(g@),
            final(self).wf(),
            final(self).has_source() == old(self).has_source(),
            old(self).has_source() ==> final(self).src_w() == old(self).src_w()
                && final(self).src_h() == old(self).src_h(),
    {
        self.grid = Some(g);
    }

    /// Reads one pixel of the stored grid, if there is a grid and the
    /// coordinates are on it.
    pub fn grid_pixel(&self, x: i64, y: i64) -> (r: Option<u8>)
        requires
            self.wf(),
        ensures
            match self.grid() {
                Some(g) => {
                    if crate::grid::grid_in_bounds(g, x as int, y as int) {
                        r == Some(g.cells[crate::grid::grid_index(g, x as int, y as int)])
                    } else {
                        r is None
                    }
                },
                None => r is None,
            },
    {
        match &self.grid {
            Some(g) => g.sample(x, y),
            None => None,
        }
    }
}

/// Decodes (or reuses) the source image, crops the pan/zoom-selected
/// region, resamples it to the canvas resolution, converts it to luma
/// intensities, and stores the result as the session's new grid.
///
/// Fails with `InvalidArgument` on a zoom with a zero component, with
/// `GeometryError` when the canvas or the decoded source is degenerate,
/// and with `DecodeError` exactly when no source is cached and the
/// bytes are not a recognized raster format (`decode_dims`). A failing
/// call leaves the session exactly as it was: the degeneracy checks run
/// before anything is cached, and a source with a zero dimension is
/// rejected instead of cached.
pub fn process_image(
    session: &mut ArtSession,
    image_data: &[u8],
    canvas_width: u32,
    canvas_height: u32,
    view: ViewParams,
) -> (r: Result<(), ArtError>)
    requires
        old(session).wf(),
        canvas_width as int * canvas_height as int * 4 <= usize::MAX as int,
    ensures
        final(session).wf(),
        r is Err ==> *final(session) == *old(session),
        old(session).has_source() ==> final(session).has_source()
            && final(session).src_w() == old(session).src_w()
            && final(session).src_h() == old(session).src_h(),
        (r == Err::<(), ArtError>(ArtError::InvalidArgument))
            <==> (view.zoom_num == 0 || view.zoom_den == 0),
        (r is Ok) <==> (view.zoom_num >= 1 && view.zoom_den >= 1
            && canvas_width >= 1 && canvas_height >= 1 && final(session).has_source()),
        (view.zoom_num >= 1 && view.zoom_den >= 1
            && (canvas_width == 0 || canvas_height == 0))
            ==> r == Err::<(), ArtError>(ArtError::GeometryError),
        (r == Err::<(), ArtError>(ArtError::GeometryError))
            ==> (view.zoom_num >= 1 && view.zoom_den >= 1
                && (canvas_width == 0 || canvas_height == 0 || !old(session).has_source())),
        (r == Err::<(), ArtError>(ArtError::DecodeError))
            ==> (view.zoom_num >= 1 && view.zoom_den >= 1
                && canvas_width >= 1 && canvas_height >= 1
                && !old(session).has_source() && !final(session).has_source()),
        r is Err ==> (r == Err::<(), ArtError>(ArtError::InvalidArgument)
            || r == Err::<(), ArtError>(ArtError::DecodeError)
            || r == Err::<(), ArtError>(ArtError::GeometryError)),
        r is Ok ==> final(session).grid() is Some
            && final(session).grid()->Some_0.w == canvas_width as int
            && final(session).grid()->Some_0.h == canvas_height as int,
        (!old(session).has_source() && view.zoom_num >= 1 && view.zoom_den >= 1
            && canvas_width >= 1 && canvas_height >= 1) ==> {
            &&& ((r == Err::<(), ArtError>(ArtError::DecodeError))
                <==> decode_dims(image_data@) is None)
            &&& ((r == Err::<(), ArtError>(ArtError::GeometryError))
                <==> (decode_dims(image_data@) matches Some(d) && (d.0 == 0 || d.1 == 0)))
            &&& ((r is Ok)
                <==> (decode_dims(image_data@) matches Some(d) && d.0 >= 1 && d.1 >= 1))
        },
        (!old(session).has_source() && r is Ok)
            ==> (decode_dims(image_data@) matches Some(d)
                && final(session).src_w() == d.0 && final(session).src_h() == d.1),
{
    if view.zoom_num == 0 || view.zoom_den == 0 {
        return Err(ArtError::InvalidArgument);
    }
    if canvas_width == 0 || canvas_height == 0 {
        return Err(ArtError::GeometryError);
    }
    if session.source.is_none() {
        match decode_image(image_data) {
            Ok(dec) => {
                let (img, w, h): (image::DynamicImage, u32, u32) = dec;
                if w == 0 || h == 0 {
                    return Err(ArtError::GeometryError);
                }
                session.source = Some(SourceImage { image: img, width: w, height: h });
            },
            Err(_) => {
                return Err(ArtError::DecodeError);
            },
        }
    }
    let (sw, sh): (u32, u32) = match &session.source {
        Some(s) => (s.width, s.height),
        None => {
            proof {
                assert(false);
            }
            return Err(ArtError::DecodeError);
        },
    };
    let (cx, cw): (u32, u32) =
        crop_axis(sw, canvas_width, view.offset_x, view.zoom_num, view.zoom_den);
    let (cy, ch): (u32, u32) =
        crop_axis(sh, canvas_height, view.offset_y, view.zoom_num, view.zoom_den);
    let cropped: image::DynamicImage = match &session.source {
        Some(s) => crop_image(&s.image, cx, cy, cw, ch),
        None => {
            proof {
                assert(false);
            }
            return Err(ArtError::DecodeError);
        },
    };
    let data: Vec<u8> = resize_to_luma(&cropped, canvas_width, canvas_height);
    match IntensityGrid::from_raw(canvas_width, canvas_height, data) {
        Ok(g) => {
            session.grid = Some(g);
            Ok(())
        },
        Err(_) => {
            proof {
                assert(false);
            }
            Err(ArtError::GeometryError)
        },
    }
}

/// Runs the greedy planner on the stored grid: `line_count` threads
/// starting at pin 0, erasing each chosen thread as a side effect.
///
/// Fails with `PreconditionError` when no grid is ready or the pin set
/// is empty. With `line_count == 0` nothing is rasterized: any
/// non-empty pin set yields the empty path and the grid untouched. With
/// `line_count >= 1` the call fails with `InvalidArgument` when only
/// one pin was given (a single pin would admit only self-loop threads,
/// which a chosen path never contains) or when a pin lies outside the
/// rasterizer's coordinate range. On failure the session is left
/// untouched; on success the path and the mutated grid are exactly what
/// `plan_spec` prescribes.
pub fn generate_string_art(
    session: &mut ArtSession,
    pins: &Vec<Pin>,
    line_count: u32,
) -> (r: Result<Vec<usize>, ArtError>)
    requires
        old(session).wf(),
    ensures
        final(session).wf(),
        final(session).has_source() == old(session).has_source(),
        (r == Err::<Vec<usize>, ArtError>(ArtError::PreconditionError))
            <==> (old(session).grid() is None || pins@.len() == 0),
        (r == Err::<Vec<usize>, ArtError>(ArtError::InvalidArgument))
            <==> (old(session).grid() is Some && pins@.len() >= 1 && line_count >= 1
                && (pins@.len() == 1
                    || !(forall|k: int| 0 <= k < pins@.len()
                        ==> pin_in_range(#[trigger] pins@[k])))),
        (r is Ok) <==> (old(session).grid() is Some && pins@.len() >= 1
            && (line_count == 0
                || (pins@.len() >= 2
                    && forall|k: int| 0 <= k < pins@.len()
                        ==> pin_in_range(#[trigger] pins@[k])))),
        r is Err ==> final(session).grid() == old(session).grid(),
        r is Ok ==> old(session).grid() is Some && final(session).grid() is Some
            && path_ints(r->Ok_0@)
                == plan_spec(old(session).grid()->Some_0, pins@, 0, line_count as nat).0
            && final(session).grid()->Some_0
                == plan_spec(old(session).grid()->Some_0, pins@, 0, line_count as nat).1
            && r->Ok_0@.len() == line_count,
        r is Ok && line_count == 0 ==> final(session).grid() == old(session).grid()
            && r->Ok_0@.len() == 0,
{
    if pins.len() == 0 {
        return Err(ArtError::PreconditionError);
    }
    if session.grid.is_none() {
        return Err(ArtError::PreconditionError);
    }
    if line_count == 0 {
        let empty_path: Vec<usize> = Vec::new();
        proof {
            let g0 = old(session).grid()->Some_0;
            assert(plan_spec(g0, pins@, 0, 0nat).0 =~= path_ints(empty_path@));
        }
        return Ok(empty_path);
    }
    if pins.len() == 1 {
        return Err(ArtError::InvalidArgument);
    }
    let mut i: usize = 0;
    while i < pins.len()
        invariant
            i <= pins@.len(),
            forall|k: int| 0 <= k < i ==> pin_in_range(#[trigger] pins@[k]),
            pins@.len() >= 2,
            line_count >= 1,
            session.wf(),
            session.grid() == old(session).grid(),
            session.has_source() == old(session).has_source(),
            old(session).grid() is Some,
        decreases pins@.len() - i,
    {
        if !pin_coords_in_range(&pins[i]) {
            return Err(ArtError::InvalidArgument);
        }
        i = i + 1;
    }
    match &mut session.grid {
        Some(g) => {
            let path: Vec<usize> = plan_path(g, pins, line_count);
            Ok(path)
        },
        None => {
            proof {
                assert(false);
            }
            Err(ArtError::PreconditionError)
        },
    }
}

} // verus!
