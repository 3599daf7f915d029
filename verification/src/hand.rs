//! Which half of a split keyboard a key belongs to.

use vstd::prelude::*;

verus! {

/// The hand that owns a key position.
#[derive(Clone, Copy, Debug, PartialEq, Eq, Structural)]
pub enum Hand {
    /// No half is known to own the position.
    Unknown,
    /// The left half.
    Left,
    /// The right half.
    Right,
}

} // verus!
