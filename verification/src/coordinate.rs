//! The wiring of one physical key.

use vstd::prelude::*;
use crate::hand::Hand;

verus! {

/// Where one physical key sits in the scan matrix, and on which half.
#[derive(Clone, Copy, Debug, PartialEq, Eq, Structural)]
pub struct Coordinate {
    /// Matrix row the key is wired to.
    pub row: u8,
    /// Matrix column the key is wired to.
    pub col: u8,
    /// Half of the keyboard that carries the key.
    pub hand: Hand,
}

impl Coordinate {
    /// The matrix cell of the coordinate, without its hand.
    pub open spec fn cell(self) -> (u8, u8) {
        (self.row, self.col)
    }

    /// What an unfilled slot of a fixed-capacity coordinate array holds.
    pub open spec fn vacant() -> Coordinate {
        Coordinate { row: 0, col: 0, hand: Hand::Unknown }
    }
}

} // verus!
