//! Errors of the one-time map/catalog load step.

use vstd::prelude::*;

verus! {

/// Why materializing a map failed.  Load failures are fatal: no partial map
/// is ever constructed.
#[derive(Clone, Copy, PartialEq, Eq, Structural, Debug)]
pub enum MapError {
    /// The map declares a zero width or height.
    ZeroDimensions,
    /// The data string's length matches neither one nor two characters per cell.
    DataLengthMismatch,
    /// A cell's elevation character is not a decimal digit.
    InvalidElevation,
    /// A cell's terrain code has no matching definition in the catalog.
    UnknownTerrainCode,
}

impl MapError {
    /// A human-readable description of the failure.
    pub fn message(&self) -> (r: &'static str)
        ensures
            *self == MapError::ZeroDimensions ==> r@ == "map dimensions must be non-zero"@,
            *self == MapError::DataLengthMismatch ==> r@ == "map data length does not match its dimensions"@,
            *self == MapError::InvalidElevation ==> r@ == "map data holds a non-digit elevation character"@,
            *self == MapError::UnknownTerrainCode ==> r@ == "tile incompatible with terrain set"@,
    {
        match self {
            MapError::ZeroDimensions => "map dimensions must be non-zero",
            MapError::DataLengthMismatch => "map data length does not match its dimensions",
            MapError::InvalidElevation => "map data holds a non-digit elevation character",
            MapError::UnknownTerrainCode => "tile incompatible with terrain set",
        }
    }
}

} // verus!
