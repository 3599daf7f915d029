//! What holds of every matrix map, keymap and hand map.

use vstd::prelude::*;
use crate::coordinate::Coordinate;
use crate::grammar::{
    coordinates, declared, find_byte, leading_space, lemma_find_byte_is_unique, trailing_space,
    trim, trim_end, trim_start, CLOSE, OPEN,
};
use crate::hand::Hand;
use crate::hand_map::{is_hand_map, last_naming, names};
use crate::matrix_map::cell_slots;
use crate::positions::{coordinate_slots, taken};
use crate::projection::{is_gap, is_projection, lands, last_landing};

verus! {

/// Text outside tokens is ignored: bytes without a `(` in front of a text
/// add nothing to its coordinates.
pub proof fn lemma_decoration_is_ignored(decoration: Seq<u8>, s: Seq<u8>)
    requires
        forall|k: int| 0 <= k < decoration.len() ==> decoration[k] != OPEN,
    ensures
        coordinates(decoration + s) == coordinates(s),
    decreases decoration.len(),
{
    if decoration.len() == 0 {
        assert(decoration + s == s);
    } else {
        let rest = decoration.skip(1);
        assert((decoration + s).skip(1) == rest + s);
        assert forall|k: int| 0 <= k < rest.len() implies rest[k] != OPEN by {
            assert(rest[k] == decoration[k + 1]);
        }
        lemma_decoration_is_ignored(rest, s);
    }
}

/// A token in front of a text adds what its payload declares: one coordinate
/// or, where the payload is malformed, nothing at all, so that the
/// coordinates behind it keep their order and move up.
pub proof fn lemma_token_adds_what_it_declares(payload: Seq<u8>, tail: Seq<u8>)
    requires
        forall|k: int| 0 <= k < payload.len() ==> payload[k] != CLOSE,
    ensures
        coordinates(seq![OPEN] + payload + seq![CLOSE] + tail) == declared(payload) + coordinates(
            tail,
        ),
{
    let text = seq![OPEN] + payload + seq![CLOSE] + tail;
    let rest = text.skip(1);
    assert(rest == payload + seq![CLOSE] + tail);
    lemma_find_byte_is_unique(rest, CLOSE, payload.len() as int);
    assert(rest.take(payload.len() as int) == payload);
    assert(rest.skip(payload.len() as int + 1) == tail);
}

/// No text declares a coordinate without a hand: the vacant coordinate of an
/// unfilled slot is none that was parsed.
pub proof fn lemma_declared_hands_are_known(s: Seq<u8>, k: int)
    requires
        0 <= k < coordinates(s).len(),
    ensures
        coordinates(s)[k].hand != Hand::Unknown,
    decreases s.len(),
{
    if s[0] != OPEN {
        lemma_declared_hands_are_known(s.skip(1), k);
    } else {
        let rest = s.skip(1);
        let at = find_byte(rest, CLOSE) as int;
        if at >= rest.len() {
            lemma_declared_hands_are_known(rest, k);
        } else if k >= declared(rest.take(at)).len() {
            lemma_declared_hands_are_known(rest.skip(at + 1), k - declared(rest.take(at)).len());
        }
    }
}

/// A trimmed text neither starts nor ends with white space.
pub proof fn lemma_trim_leaves_no_space(s: Seq<u8>)
    ensures
        leading_space(trim(s)) == 0,
        trailing_space(trim(s)) == 0,
{
    lemma_trim_start_leaves_none(s);
    lemma_trim_end_keeps_front(trim_start(s));
}

/// A text trimmed at its start does not start with white space.
proof fn lemma_trim_start_leaves_none(s: Seq<u8>)
    ensures
        leading_space(trim_start(s)) == 0,
    decreases s.len(),
{
    let w = leading_space(s);
    if w > 0 {
        lemma_trim_start_leaves_none(s.skip(w));
    }
}

/// Trimming the end of a text leaves no white space at its end and brings
/// none to its start.
proof fn lemma_trim_end_keeps_front(s: Seq<u8>)
    requires
        leading_space(s) == 0,
    ensures
        leading_space(trim_end(s)) == 0,
        trailing_space(trim_end(s)) == 0,
    decreases s.len(),
{
    let w = trailing_space(s);
    if w > 0 {
        lemma_trim_end_keeps_front(s.take(s.len() - w));
    }
}

/// The last landing is a landing, and no slot behind it lands on the cell.
pub proof fn lemma_last_landing(cells: Seq<(u8, u8)>, keys: int, row: int, col: int, n: int)
    ensures
        -1 <= last_landing(cells, keys, row, col, n),
        last_landing(cells, keys, row, col, n) < n || n <= 0,
        last_landing(cells, keys, row, col, n) >= 0 ==> lands(
            cells,
            keys,
            last_landing(cells, keys, row, col, n),
            row,
            col,
        ),
        forall|j: int|
            last_landing(cells, keys, row, col, n) < j < n ==> !lands(cells, keys, j, row, col),
    decreases n,
{
    if n > 0 && !lands(cells, keys, n - 1, row, col) {
        lemma_last_landing(cells, keys, row, col, n - 1);
    }
}

/// The last naming is a naming, and no coordinate behind it names the cell.
pub proof fn lemma_last_naming(coordinates: Seq<Coordinate>, row: int, col: int, n: int)
    ensures
        -1 <= last_naming(coordinates, row, col, n),
        last_naming(coordinates, row, col, n) < n || n <= 0,
        last_naming(coordinates, row, col, n) >= 0 ==> names(
            coordinates,
            last_naming(coordinates, row, col, n),
            row,
            col,
        ),
        forall|j: int|
            last_naming(coordinates, row, col, n) < j < n ==> !names(coordinates, j, row, col),
    decreases n,
{
    if n > 0 && !names(coordinates, n - 1, row, col) {
        lemma_last_naming(coordinates, row, col, n - 1);
    }
}

/// Last write wins: a cell holds, in every layer, the action of the physical
/// key whose slot writes to it, where no later slot writes to it too.
pub proof fn lemma_last_write_wins<
    A,
    const ROW: usize,
    const COL: usize,
    const NUM_LAYER: usize,
    const KEYS: usize,
>(
    grid: [[[A; COL]; ROW]; NUM_LAYER],
    cells: Seq<(u8, u8)>,
    keymap_physical: [[A; KEYS]; NUM_LAYER],
    no_op: A,
    layer: int,
    row: int,
    col: int,
    i: int,
)
    requires
        is_projection(grid, cells, keymap_physical, no_op),
        0 <= layer < NUM_LAYER,
        0 <= row < ROW,
        0 <= col < COL,
        lands(cells, KEYS as int, i, row, col),
        forall|j: int| i < j < cells.len() ==> !#[trigger] lands(cells, KEYS as int, j, row, col),
    ensures
        grid[layer][row][col] == keymap_physical[layer][i],
{
    lemma_last_landing(cells, KEYS as int, row, col, cells.len() as int);
}

/// Default fill: a cell that no slot names holds the no-op action in every
/// layer.
pub proof fn lemma_default_fill<
    A,
    const ROW: usize,
    const COL: usize,
    const NUM_LAYER: usize,
    const KEYS: usize,
>(
    grid: [[[A; COL]; ROW]; NUM_LAYER],
    cells: Seq<(u8, u8)>,
    keymap_physical: [[A; KEYS]; NUM_LAYER],
    no_op: A,
    layer: int,
    row: int,
    col: int,
)
    requires
        is_projection(grid, cells, keymap_physical, no_op),
        0 <= layer < NUM_LAYER,
        0 <= row < ROW,
        0 <= col < COL,
        forall|i: int| 0 <= i < cells.len() ==> !(cells[i].0 == row && cells[i].1 == col),
    ensures
        grid[layer][row][col] == no_op,
{
    lemma_last_landing(
        cells,
        keymap_physical[layer]@.len() as int,
        row,
        col,
        cells.len() as int,
    );
}

/// Default fill of the hand map: a cell that no coordinate names is owned by
/// no known hand.
pub proof fn lemma_default_hand<const ROW: usize, const COL: usize>(
    map: [[Hand; COL]; ROW],
    coordinates: Seq<Coordinate>,
    row: int,
    col: int,
)
    requires
        is_hand_map(map, coordinates),
        0 <= row < ROW,
        0 <= col < COL,
        forall|i: int|
            0 <= i < coordinates.len() ==> !(coordinates[i].row == row && coordinates[i].col
                == col),
    ensures
        map[row][col] == Hand::Unknown,
{
    lemma_last_naming(coordinates, row, col, coordinates.len() as int);
}

/// The hand on a cell is that of the last coordinate that names it.
pub proof fn lemma_last_hand_wins<const ROW: usize, const COL: usize>(
    map: [[Hand; COL]; ROW],
    coordinates: Seq<Coordinate>,
    row: int,
    col: int,
    i: int,
)
    requires
        is_hand_map(map, coordinates),
        0 <= row < ROW,
        0 <= col < COL,
        names(coordinates, i, row, col),
        forall|j: int| i < j < coordinates.len() ==> !names(coordinates, j, row, col),
    ensures
        map[row][col] == coordinates[i].hand,
{
    lemma_last_naming(coordinates, row, col, coordinates.len() as int);
}

/// Round trip: where no two slots name the same cell and every slot names a
/// cell of the matrix, the cell that slot `i` names holds, in every layer, the
/// action of physical key `i`.
///
/// A `(0, 0)` behind the first slot is taken for a gap and writes nothing, so
/// the law leaves out a key that is declared there with another action than
/// the no-op.
pub proof fn lemma_round_trip<
    A,
    const ROW: usize,
    const COL: usize,
    const NUM_LAYER: usize,
    const KEYS: usize,
>(
    grid: [[[A; COL]; ROW]; NUM_LAYER],
    cells: Seq<(u8, u8)>,
    keymap_physical: [[A; KEYS]; NUM_LAYER],
    no_op: A,
    layer: int,
    i: int,
)
    requires
        is_projection(grid, cells, keymap_physical, no_op),
        forall|a: int, b: int| 0 <= a < b < cells.len() ==> cells[a] != cells[b],
        forall|k: int| 0 <= k < cells.len() ==> cells[k].0 < ROW && cells[k].1 < COL,
        0 <= layer < NUM_LAYER,
        0 <= i < cells.len(),
        i < KEYS,
        is_gap(cells, i) ==> keymap_physical[layer][i] == no_op,
    ensures
        grid[layer][cells[i].0 as int][cells[i].1 as int] == keymap_physical[layer][i],
{
    let row = cells[i].0 as int;
    let col = cells[i].1 as int;
    // No other slot names the cell, so the last landing on it is slot `i`,
    // or there is none because slot `i` is taken for a gap.
    lemma_last_landing(cells, KEYS as int, row, col, cells.len() as int);
    if !is_gap(cells, i) {
        assert(lands(cells, KEYS as int, i, row, col));
    }
}

/// Determinism of the projection: two grids that are each the projection of
/// the same keymap through the same cells are the same grid.
pub proof fn lemma_projection_is_unique<
    A,
    const ROW: usize,
    const COL: usize,
    const NUM_LAYER: usize,
    const KEYS: usize,
>(
    first: [[[A; COL]; ROW]; NUM_LAYER],
    second: [[[A; COL]; ROW]; NUM_LAYER],
    cells: Seq<(u8, u8)>,
    keymap_physical: [[A; KEYS]; NUM_LAYER],
    no_op: A,
)
    requires
        is_projection(first, cells, keymap_physical, no_op),
        is_projection(second, cells, keymap_physical, no_op),
    ensures
        first == second,
{
    // Equal cell by cell, hence row by row, hence layer by layer.
    assert forall|l: int| 0 <= l < NUM_LAYER implies first[l] == second[l] by {
        assert forall|r: int| 0 <= r < ROW implies first[l][r] == second[l][r] by {
            assert forall|c: int| 0 <= c < COL implies first[l][r][c] == second[l][r][c] by {}
        }
    }
}

/// Determinism of the hand map: two maps that are each the hand map of the
/// same coordinates are the same map.
pub proof fn lemma_hand_map_is_unique<const ROW: usize, const COL: usize>(
    first: [[Hand; COL]; ROW],
    second: [[Hand; COL]; ROW],
    coordinates: Seq<Coordinate>,
)
    requires
        is_hand_map(first, coordinates),
        is_hand_map(second, coordinates),
    ensures
        first == second,
{
    // Equal cell by cell, hence row by row.
    assert forall|r: int| 0 <= r < ROW implies first[r] == second[r] by {
        assert forall|c: int| 0 <= c < COL implies first[r][c] == second[r][c] by {}
    }
}

/// Determinism of the parse: two cell arrays that each hold the slots filled
/// from the same coordinates are the same array.
pub proof fn lemma_cell_slots_are_unique<const MAX_COORDS: usize>(
    first: [(u8, u8); MAX_COORDS],
    second: [(u8, u8); MAX_COORDS],
    found: Seq<Coordinate>,
)
    requires
        first@ == cell_slots(found, MAX_COORDS as nat),
        second@ == cell_slots(found, MAX_COORDS as nat),
    ensures
        first == second,
{
}

/// Determinism of the parse with hands: two coordinate arrays that each hold
/// the slots filled from the same coordinates are the same array.
pub proof fn lemma_coordinate_slots_are_unique<const MAX_COORDS: usize>(
    first: [Coordinate; MAX_COORDS],
    second: [Coordinate; MAX_COORDS],
    found: Seq<Coordinate>,
)
    requires
        first@ == coordinate_slots(found, MAX_COORDS as nat),
        second@ == coordinate_slots(found, MAX_COORDS as nat),
    ensures
        first == second,
{
}

/// Capacity truncation: an array of slots takes the first coordinates, as
/// many as it has room for and in their order, and none of the others.
pub proof fn lemma_truncation(found: Seq<Coordinate>, capacity: nat)
    ensures
        taken(found, capacity) <= capacity,
        taken(found, capacity) <= found.len(),
        taken(found, capacity) == capacity || taken(found, capacity) == found.len(),
        coordinate_slots(found, capacity).len() == capacity,
        cell_slots(found, capacity).len() == capacity,
        forall|k: int|
            0 <= k < taken(found, capacity) ==> coordinate_slots(found, capacity)[k] == found[k]
                && cell_slots(found, capacity)[k] == found[k].cell(),
        forall|k: int|
            taken(found, capacity) <= k < capacity ==> coordinate_slots(found, capacity)[k]
                == Coordinate::vacant() && cell_slots(found, capacity)[k] == (0u8, 0u8),
{
}

} // verus!
