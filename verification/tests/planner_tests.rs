use string_art::errors::ArtError;
use string_art::grid::IntensityGrid;
use string_art::pins::Pin;
use string_art::session::{generate_string_art, ArtSession};

fn corner_pins() -> Vec<Pin> {
    vec![
        Pin { x: 0, y: 0 },
        Pin { x: 1, y: 0 },
        Pin { x: 1, y: 1 },
        Pin { x: 0, y: 1 },
    ]
}

fn black_2x2_session() -> ArtSession {
    let mut s = ArtSession::new();
    s.install_grid(IntensityGrid::from_raw(2, 2, vec![0; 4]).unwrap());
    s
}

#[test]
fn planning_without_grid_fails() {
    let mut s = ArtSession::new();
    assert_eq!(
        generate_string_art(&mut s, &corner_pins(), 1).unwrap_err(),
        ArtError::PreconditionError
    );
}

#[test]
fn planning_with_empty_pins_fails() {
    let mut s = black_2x2_session();
    assert_eq!(
        generate_string_art(&mut s, &Vec::new(), 1).unwrap_err(),
        ArtError::PreconditionError
    );
}

#[test]
fn planning_with_single_pin_fails() {
    // one pin admits only self-loop threads, which a path never contains
    let mut s = black_2x2_session();
    let pins = vec![Pin { x: 0, y: 0 }];
    assert_eq!(
        generate_string_art(&mut s, &pins, 1).unwrap_err(),
        ArtError::InvalidArgument
    );
    // zero threads rasterize nothing, so a single pin is fine
    assert_eq!(generate_string_art(&mut s, &pins, 0).unwrap(), Vec::<usize>::new());
    assert_eq!(s.grid_pixel(0, 0), Some(0));
}

#[test]
fn planning_with_far_away_pins_fails() {
    let mut s = black_2x2_session();
    let pins = vec![Pin { x: 0, y: 0 }, Pin { x: 0x50_0000, y: 0 }];
    assert_eq!(
        generate_string_art(&mut s, &pins, 1).unwrap_err(),
        ArtError::InvalidArgument
    );
    // zero threads rasterize nothing, so the range does no work
    assert_eq!(generate_string_art(&mut s, &pins, 0).unwrap(), Vec::<usize>::new());
    // the failed call left the grid untouched
    assert_eq!(s.grid_pixel(0, 0), Some(0));
}

#[test]
fn zero_lines_returns_empty_and_grid_untouched() {
    let mut s = black_2x2_session();
    let path = generate_string_art(&mut s, &corner_pins(), 0).unwrap();
    assert!(path.is_empty());
    for y in 0..2 {
        for x in 0..2 {
            assert_eq!(s.grid_pixel(x, y), Some(0));
        }
    }
}

#[test]
fn scenario_two_by_two_all_black() {
    // On an all-black 2x2 grid with the four corner pins, the first
    // thread from pin 0 goes to the corner with the darkest path: the
    // diagonal pin 2 (three black cells, score 765, beating the two
    // two-cell edges at 510). Its walk (0,0)-(0,1)-(1,1) is then erased
    // to 150. The second choice, from pin 2, must score against the
    // erased cells: the diagonal back to pin 0 still wins (105+255+105
    // over the edges' 360 and 210) because it crosses the untouched
    // cell (1,0).
    let mut s = black_2x2_session();
    let path = generate_string_art(&mut s, &corner_pins(), 2).unwrap();
    assert_eq!(path, vec![2, 0]);
    assert_eq!(s.grid_pixel(0, 0), Some(255));
    assert_eq!(s.grid_pixel(1, 0), Some(150));
    assert_eq!(s.grid_pixel(0, 1), Some(150));
    assert_eq!(s.grid_pixel(1, 1), Some(255));
}

#[test]
fn repeated_planning_differs_on_mutated_grid() {
    // The first plan erases what it chose, so an immediate second plan
    // over the same (now mutated) grid takes a different path.
    let mut s = black_2x2_session();
    let first = generate_string_art(&mut s, &corner_pins(), 2).unwrap();
    let second = generate_string_art(&mut s, &corner_pins(), 2).unwrap();
    assert_eq!(first, vec![2, 0]);
    assert_ne!(first, second);
}

#[test]
fn no_self_loop_in_long_run() {
    let mut s = ArtSession::new();
    let data: Vec<u8> = (0..16u32).map(|i| (i * 13 % 200) as u8).collect();
    s.install_grid(IntensityGrid::from_raw(4, 4, data).unwrap());
    let pins = vec![
        Pin { x: 0, y: 0 },
        Pin { x: 3, y: 0 },
        Pin { x: 3, y: 3 },
        Pin { x: 0, y: 3 },
    ];
    let path = generate_string_art(&mut s, &pins, 12).unwrap();
    assert_eq!(path.len(), 12);
    let mut current = 0usize;
    for &next in &path {
        assert_ne!(next, current);
        assert!(next < pins.len());
        current = next;
    }
}

#[test]
fn erasure_saturates_and_never_wraps() {
    // Drive many erasures over a tiny grid: every pixel must only
    // brighten, and must cap at 255 instead of wrapping around.
    let mut s = black_2x2_session();
    let pins = corner_pins();
    let mut previous = vec![0u8; 4];
    for _ in 0..10 {
        generate_string_art(&mut s, &pins, 3).unwrap();
        let mut now = Vec::new();
        for y in 0..2 {
            for x in 0..2 {
                now.push(s.grid_pixel(x, y).unwrap());
            }
        }
        for (old, new) in previous.iter().zip(now.iter()) {
            assert!(new >= old);
        }
        previous = now;
    }
    // repeatedly erased cells cap at white instead of wrapping
    assert_eq!(s.grid_pixel(0, 0), Some(255));
    assert!(previous.iter().any(|&v| v == 255));
}
