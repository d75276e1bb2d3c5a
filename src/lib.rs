//! An interpreter core for the eight-command tape language: an unbounded,
//! bidirectional tape of byte cells built from two growable halves, and the
//! instruction stepper that drives it.

pub mod half_tape;
pub mod full_tape;
pub mod tape_laws;
pub mod interpreter;

pub use full_tape::Tape;
pub use half_tape::HalfTape;
