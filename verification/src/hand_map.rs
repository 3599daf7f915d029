//! Which hand owns each cell of the scan matrix.
//!
//! The map is derived from the coordinates alone: every coordinate puts its
//! hand on the cell it names, so that of two coordinates on one cell the
//! later one decides.

use vstd::prelude::*;
use vstd::string::StringSliceAdditionalSpecFns;
use crate::coordinate::Coordinate;
use crate::grammar::coordinates;
use crate::hand::Hand;
use crate::matrix_map::MAX_MATRIX_SIZE;
use crate::positions::{parse_positions, taken};

verus! {

/// Whether coordinate `i` of `coordinates` names the cell `(row, col)`.
pub open spec fn names(coordinates: Seq<Coordinate>, i: int, row: int, col: int) -> bool {
    &&& 0 <= i < coordinates.len()
    &&& coordinates[i].row == row
    &&& coordinates[i].col == col
}

/// The last coordinate before `n` that names `(row, col)`, or -1 where none
/// of them does.
pub open spec fn last_naming(coordinates: Seq<Coordinate>, row: int, col: int, n: int) -> int
    decreases n,
{
    if n <= 0 {
        -1
    } else if names(coordinates, n - 1, row, col) {
        n - 1
    } else {
        last_naming(coordinates, row, col, n - 1)
    }
}

/// The hand on the cell `(row, col)` once the first `n` of `coordinates` are
/// applied: that of the last one that names the cell, or `Unknown`.
pub open spec fn hand_upto(coordinates: Seq<Coordinate>, row: int, col: int, n: int) -> Hand {
    let i = last_naming(coordinates, row, col, n);
    if i >= 0 {
        coordinates[i].hand
    } else {
        Hand::Unknown
    }
}

/// The hand that `coordinates` put on the cell `(row, col)`.
pub open spec fn hand_at(coordinates: Seq<Coordinate>, row: int, col: int) -> Hand {
    hand_upto(coordinates, row, col, coordinates.len() as int)
}

/// Whether `map` is the hand map of `coordinates`: every cell holds what
/// [`hand_at`] says of it.
pub open spec fn is_hand_map<const ROW: usize, const COL: usize>(
    map: [[Hand; COL]; ROW],
    coordinates: Seq<Coordinate>,
) -> bool {
    forall|r: int, c: int|
        0 <= r < ROW && 0 <= c < COL ==> #[trigger] map[r][c] == hand_at(coordinates, r, c)
}

/// Derives the hand map of a matrix of `ROW` by `COL` cells.
///
/// Every cell starts as `Unknown`. Then the coordinates are applied in order,
/// each putting its hand on the cell it names; one that names a cell outside
/// the matrix is passed over.
pub fn annotate<const ROW: usize, const COL: usize>(coordinates: &[Coordinate]) -> (map: [[Hand;
    COL]; ROW])
    ensures
        is_hand_map(map, coordinates@),
{
    let mut map = [[Hand::Unknown;COL];ROW];

    for i in 0..coordinates.len()
        invariant
            forall|r: int, c: int|
                0 <= r < ROW && 0 <= c < COL ==> #[trigger] map[r][c] == hand_upto(
                    coordinates@,
                    r,
                    c,
                    i as int,
                ),
    {
        let coordinate = coordinates[i];
        if (coordinate.row as usize) < ROW && (coordinate.col as usize) < COL {
            map[coordinate.row as usize][coordinate.col as usize] = coordinate.hand;
        }
    }
    map
}

/// Parses a matrix map and derives the hand map of a matrix of `ROW` by `COL`
/// cells from it.
///
/// The text is parsed into [`MAX_MATRIX_SIZE`] coordinate slots, and the map
/// is derived from the slots that were filled: a cell is owned by the hand of
/// the last coordinate of the text that names it, and by no known hand where
/// none does.
pub fn parse_hand_map<const ROW: usize, const COL: usize>(matrix_map: &str) -> (map: [[Hand;
    COL]; ROW])
    ensures
        is_hand_map(
            map,
            coordinates(matrix_map.spec_bytes()).take(
                taken(coordinates(matrix_map.spec_bytes()), MAX_MATRIX_SIZE as nat) as int,
            ),
        ),
{
    let (slots, count) = parse_positions::<MAX_MATRIX_SIZE>(matrix_map);
    let filled = &slots[0..count];
    assert(filled@ == coordinates(matrix_map.spec_bytes()).take(count as int));
    annotate(filled)
}

} // verus!
