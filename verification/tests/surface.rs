use led_matrix::hw::Line;
use led_matrix::matrix::{LedMatrix, LineError, DWELL_MICROS};
use led_matrix::pixel::{col_drive, in_bounds, row_drive, GRID_HEIGHT, GRID_WIDTH};

#[test]
fn surface_is_eight_by_eight() {
    assert_eq!(GRID_WIDTH, 8);
    assert_eq!(GRID_HEIGHT, 8);
}

#[test]
fn corner_pixel_is_accepted() {
    // (7,7) addresses the eighth column line and the eighth row line.
    assert!(in_bounds(7, 7));
}

#[test]
fn out_of_window_pixels_are_rejected() {
    assert!(!in_bounds(8, 0));
    assert!(!in_bounds(0, 8));
    assert!(!in_bounds(-1, 0));
    assert!(!in_bounds(0, -1));
}

#[test]
fn rows_and_columns_drive_complementary_levels() {
    // While energized for an "on" pixel the row sources (high) and the
    // column sinks (low); for an "off" pixel both are inverted.
    assert_eq!(row_drive(true), true);
    assert_eq!(col_drive(true), false);
    assert_eq!(row_drive(false), false);
    assert_eq!(col_drive(false), true);
}

#[test]
fn dwell_is_five_microseconds() {
    assert_eq!(DWELL_MICROS, 5);
}

#[test]
fn construction_fails_as_a_whole() {
    // Without the GPIO peripheral no real line can be acquired, so every
    // acquisition result is a failure here; construction must report the
    // first failing line and return no surface.
    let results: Vec<Result<Line, LineError>> =
        (0u8..16).map(|pin| Err(LineError { pin })).collect();
    match LedMatrix::from_lines(results) {
        Ok(_) => panic!("a surface was built from failed acquisitions"),
        Err(e) => assert_eq!(e.pin, 0),
    }
}

#[test]
fn construction_reports_the_first_failure() {
    let results: Vec<Result<Line, LineError>> =
        (0u8..16).map(|pin| Err(LineError { pin: pin + 3 })).collect();
    match LedMatrix::from_lines(results) {
        Ok(_) => panic!("a surface was built from failed acquisitions"),
        Err(e) => assert_eq!(e, LineError { pin: 3 }),
    }
}
