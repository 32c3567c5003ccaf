//! The error kinds that the library's operations report.

use vstd::prelude::*;

verus! {

/// Every failure of a public operation carries one of these kinds.
///
/// - `InvalidArgument`: a parameter outside the operation's domain,
///   such as a pin count of zero or a zoom with a zero component.
/// - `DecodeError`: the supplied bytes are not a recognized raster format.
/// - `GeometryError`: the crop/resize rectangle is degenerate after clamping.
/// - `PreconditionError`: planning was requested without a ready grid or
///   with an empty pin set.
#[derive(Clone, Copy, Debug, PartialEq, Eq, Structural)]
pub enum ArtError {
    InvalidArgument,
    DecodeError,
    GeometryError,
    PreconditionError,
}

impl ArtError {
    /// A short human-readable description of the error kind.
    pub fn describe(&self) -> (r: &'static str)
        ensures
            (*self is InvalidArgument) ==> r@ == "argument outside the accepted range"@,
            (*self is DecodeError) ==> r@ == "bytes are not a recognized raster format"@,
            (*self is GeometryError) ==> r@ == "crop rectangle is degenerate"@,
            (*self is PreconditionError) ==> r@ == "no intensity grid is ready or the pin set is empty"@,
    {
        match self {
            ArtError::InvalidArgument => "argument outside the accepted range",
            ArtError::DecodeError => "bytes are not a recognized raster format",
            ArtError::GeometryError => "crop rectangle is degenerate",
            ArtError::PreconditionError => "no intensity grid is ready or the pin set is empty",
        }
    }
}

} // verus!
