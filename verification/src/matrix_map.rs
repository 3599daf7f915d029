//! Parsing a matrix map and projecting a keymap through it.

use vstd::prelude::*;
use vstd::string::StringSliceAdditionalSpecFns;
use crate::coordinate::Coordinate;
use crate::grammar::{coordinates, triple, CLOSE, OPEN};
use crate::projection::{is_projection, project};
use crate::scanner::{find, parse_triple};

verus! {

/// Number of coordinate slots that [`parse_coordinates_for_matrix`] fills: at
/// least as many as the largest matrix has keys.
pub const MAX_MATRIX_SIZE: usize = 42;

/// The row and column that a payload declares, without its hand.
pub open spec fn declared_cell(payload: Seq<u8>) -> Option<(u8, u8)> {
    match triple(payload) {
        Some(c) => Some(c.cell()),
        None => None,
    }
}

/// What a cell array of `capacity` slots holds once it is filled from
/// `found`: the cells of the first `capacity` coordinates, in order, and
/// `(0, 0)` in every slot behind them.
pub open spec fn cell_slots(found: Seq<Coordinate>, capacity: nat) -> Seq<(u8, u8)> {
    Seq::new(
        capacity,
        |k: int|
            if k < found.len() {
                found[k].cell()
            } else {
                (0u8, 0u8)
            },
    )
}

/// Parses one payload, the text between the parentheses of a token, into its
/// row and column.
///
/// Returns `None` unless the payload has exactly three comma-separated fields
/// of which the first two, trimmed, are numbers from 0 to 255.
pub fn parse_coordinate_tuple(content: &str) -> (cell: Option<(u8, u8)>)
    ensures
        cell == declared_cell(content.spec_bytes()),
{
    match parse_triple(content.as_bytes()) {
        Some(c) => Some((c.row, c.col)),
        None => None,
    }
}

/// Parses the cells that a matrix map declares into an array of `MAX_COORDS`
/// slots.
///
/// Slot `k` holds the row and column of the `k`-th coordinate of the text.
/// Coordinates beyond the capacity are dropped, and slots beyond the last
/// coordinate hold `(0, 0)`.
pub fn parse_coordinates<const MAX_COORDS: usize>(matrix_map: &str) -> (cells: [(
    u8,
    u8,
); MAX_COORDS])
    ensures
        cells@ == cell_slots(coordinates(matrix_map.spec_bytes()), MAX_COORDS as nat),
{
    let mut cells = [(0u8, 0u8);MAX_COORDS];
    let mut coord_count: usize = 0;
    let mut i: usize = 0;
    let bytes = matrix_map.as_bytes();
    let ghost mut found: Seq<Coordinate> = Seq::empty();

    assert(bytes@.skip(0) == bytes@);
    while i < bytes.len() && coord_count < MAX_COORDS
        invariant
            i <= bytes@.len(),
            coord_count <= MAX_COORDS,
            found.len() == coord_count,
            coordinates(bytes@) == found + coordinates(bytes@.skip(i as int)),
            forall|k: int| 0 <= k < coord_count ==> cells@[k] == found[k].cell(),
            forall|k: int| coord_count <= k < MAX_COORDS ==> cells@[k] == (0u8, 0u8),
        decreases bytes@.len() - i,
    {
        let ghost here = bytes@.skip(i as int);
        assert(here.skip(1) == bytes@.skip(i + 1));
        if bytes[i] == OPEN {
            // The payload runs up to the next closing parenthesis.
            let rest = &bytes[i + 1..bytes.len()];
            let j = i + 1 + find(rest, CLOSE);
            if j < bytes.len() {
                let payload = &bytes[i + 1..j];
                assert(payload@ == rest@.take(j - i - 1));
                assert(rest@.skip(j - i) == bytes@.skip(j + 1));
                if let Some(c) = parse_triple(payload) {
                    cells[coord_count] = (c.row, c.col);
                    coord_count += 1;
                    proof {
                        found = found.push(c);
                    }
                }
                i = j + 1;
            } else {
                i += 1;
            }
        } else {
            i += 1;
        }
    }
    cells
}

/// Parses the cells of a matrix map into [`MAX_MATRIX_SIZE`] slots, whatever
/// the shape of the matrix.
pub fn parse_coordinates_for_matrix<const ROW: usize, const COL: usize>(matrix_map: &str) -> (cells:
    [(u8, u8); MAX_MATRIX_SIZE])
    ensures
        cells@ == cell_slots(coordinates(matrix_map.spec_bytes()), MAX_MATRIX_SIZE as nat),
{
    parse_coordinates::<MAX_MATRIX_SIZE>(matrix_map)
}

/// Parses a matrix map and projects the physically ordered `keymap_physical`
/// through it onto a matrix of `ROW` by `COL` cells per layer.
///
/// The text is parsed into [`MAX_MATRIX_SIZE`] cell slots, and the keymap is
/// projected through them: the action of physical key `i` goes to the cell
/// that the `i`-th coordinate of the text names, and a cell that no
/// coordinate writes to holds `no_op`.
pub fn parse_matrix_map<
    A: Copy,
    const ROW: usize,
    const COL: usize,
    const NUM_LAYER: usize,
    const KEYS: usize,
>(matrix_map: &str, keymap_physical: &[[A; KEYS]; NUM_LAYER], no_op: A) -> (pin_keymap: [[[A;
    COL]; ROW]; NUM_LAYER])
    ensures
        is_projection(
            pin_keymap,
            cell_slots(coordinates(matrix_map.spec_bytes()), MAX_MATRIX_SIZE as nat),
            *keymap_physical,
            no_op,
        ),
{
    let cells = parse_coordinates_for_matrix::<ROW, COL>(matrix_map);
    project(&cells, keymap_physical, no_op)
}

} // verus!
