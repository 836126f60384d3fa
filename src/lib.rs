//! Reads a mood from shell-command history.
//!
//! Records are turned into scored signals by four detectors (frequency,
//! temporal, errors, diversity), and the signals into one of nine moods by
//! fixed weighted formulas.
//!
//! All arithmetic is exact and fixed-point: a signal score is in basis
//! points (10000 stand for 1.0) and a mood confidence in parts per million,
//! so that every weighted formula (weights in hundredths) is computed
//! without rounding.
use vstd::prelude::*;

pub mod analysis;
pub mod classifier;
pub mod cli;
pub mod diversity;
pub mod errors;
pub mod format;
pub mod frequency;
pub mod history;
pub mod moods;
pub mod replies;
pub mod seed;
pub mod signals;
pub mod stats;
pub mod temporal;
pub mod text;
pub mod tone;
pub mod zsh;

verus! {

} // verus!
