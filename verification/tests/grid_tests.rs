use string_art::errors::ArtError;
use string_art::grid::IntensityGrid;

#[test]
fn from_raw_accepts_matching_length() {
    let g = IntensityGrid::from_raw(3, 2, vec![0, 1, 2, 3, 4, 5]).unwrap();
    assert_eq!(g.width(), 3);
    assert_eq!(g.height(), 2);
}

#[test]
fn from_raw_rejects_wrong_length() {
    assert_eq!(
        IntensityGrid::from_raw(3, 2, vec![0; 5]).unwrap_err(),
        ArtError::InvalidArgument
    );
}

#[test]
fn sample_reads_row_major_cells() {
    let g = IntensityGrid::from_raw(3, 2, vec![10, 11, 12, 20, 21, 22]).unwrap();
    assert_eq!(g.sample(0, 0), Some(10));
    assert_eq!(g.sample(2, 0), Some(12));
    assert_eq!(g.sample(0, 1), Some(20));
    assert_eq!(g.sample(2, 1), Some(22));
}

#[test]
fn sample_out_of_bounds_is_none() {
    let g = IntensityGrid::from_raw(3, 2, vec![0; 6]).unwrap();
    assert_eq!(g.sample(-1, 0), None);
    assert_eq!(g.sample(0, -1), None);
    assert_eq!(g.sample(3, 0), None);
    assert_eq!(g.sample(0, 2), None);
}
