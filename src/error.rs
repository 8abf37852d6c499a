//! Errors of a conversion. Every one of them aborts the whole run.
use vstd::prelude::*;

verus! {

#[derive(Debug, Clone, Copy, PartialEq, Eq, Structural)]
pub enum ConvertError {
    /// A dataset line (0-based index) holds a value that does not parse.
    BadDatasetLine(usize),
    /// A coordinate token does not split on the degree sign into exactly two parts.
    InvalidFormat,
    /// A cell that must hold text holds something else.
    NotText { row: usize, col: usize },
    /// A cell that must hold a number holds something else.
    NotNumber { row: usize, col: usize },
    /// A number does not fit the field it is stored in.
    OutOfRange { row: usize, col: usize },
    /// The digits after an `FZ` type code do not form a speed.
    InvalidSpeed { row: usize },
    /// No sheet produced a completed race.
    NoRaces,
}

} // verus!
