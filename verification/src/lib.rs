//! Driver for a monochrome 8x8 LED dot matrix wired as a row/column
//! multiplexed grid, together with a scroll animator that moves a rendered
//! text run across the grid one column per frame tick.
//!
//! The matrix is driven by sixteen GPIO output lines: eight row lines
//! (active high, resting low) and eight column lines (active low, resting
//! high). A pixel is lit by driving exactly one row/column pair to its
//! active levels for a short dwell time and then restoring both lines,
//! which yields a software PWM with a 50% duty cycle.

pub mod hw;
pub mod matrix;
pub mod pixel;
pub mod scroll;
