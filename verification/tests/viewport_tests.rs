use string_art::errors::ArtError;
use string_art::viewport::crop_axis;

#[test]
fn crop_axis_identity_view() {
    // zoom 1, no offset: the whole source axis, capped by the canvas
    assert_eq!(crop_axis(10, 10, 0, 1, 1), (0, 10));
    assert_eq!(crop_axis(10, 4, 0, 1, 1), (0, 4));
}

#[test]
fn crop_axis_pans_and_zooms() {
    // zoom 2: a -6 offset puts the view origin at source pixel 3 and
    // a 4-pixel canvas spans 2 source pixels
    assert_eq!(crop_axis(10, 4, -6, 2, 1), (3, 2));
    // positive offsets clamp the origin to 0
    assert_eq!(crop_axis(10, 4, 6, 2, 1), (0, 2));
}

#[test]
fn crop_axis_clamps_into_the_source() {
    // an offset far off the image: the span is raised to one pixel and
    // the origin re-clamped to keep the rectangle inside the source
    assert_eq!(crop_axis(10, 4, -60, 2, 1), (9, 1));
    // extreme zoom-in: less than one source pixel visible, floored up to 1
    assert_eq!(crop_axis(10, 4, 0, 100, 1), (0, 1));
    // fractional zoom out (1/2): the canvas spans more than the source
    assert_eq!(crop_axis(10, 4, 0, 1, 2), (0, 8));
}

#[test]
fn error_kinds_describe_themselves() {
    assert_eq!(
        ArtError::InvalidArgument.describe(),
        "argument outside the accepted range"
    );
    assert_eq!(
        ArtError::DecodeError.describe(),
        "bytes are not a recognized raster format"
    );
    assert_eq!(
        ArtError::GeometryError.describe(),
        "crop rectangle is degenerate"
    );
    assert_eq!(
        ArtError::PreconditionError.describe(),
        "no intensity grid is ready or the pin set is empty"
    );
}
