//! How the frames of an animation are laid out on a sprite sheet.

use vstd::prelude::*;

verus! {

/// Where a sequence keeps the frames of its eight facing directions.
#[derive(Clone, Copy, Debug, PartialEq, Eq, Structural)]
pub enum Directions {
    /// One row per direction: frames run along a row.
    Column,
    /// All directions in one row, offset from the frame.
    Row,
    /// The sequence looks the same from every direction.
    Fixed,
}

impl Directions {
    /// The cell, as (column, row), that shows `frame` seen from `direction`.
    pub open spec fn spec_cell(&self, frame: u32, direction: u32) -> (u64, u64) {
        match self {
            Directions::Column => (frame as u64, direction as u64),
            Directions::Row => ((frame + direction) as u64, 0u64),
            Directions::Fixed => (0u64, 0u64),
        }
    }

    /// The cell, as (column, row), that shows `frame` seen from `direction`.
    #[verifier::when_used_as_spec(spec_cell)]
    pub fn cell(&self, frame: u32, direction: u32) -> (cell: (u64, u64))
        ensures
            cell == self.spec_cell(frame, direction),
    {
        match self {
            Directions::Column => (frame as u64, direction as u64),
            Directions::Row => (frame as u64 + direction as u64, 0),
            Directions::Fixed => (0, 0),
        }
    }
}

} // verus!
