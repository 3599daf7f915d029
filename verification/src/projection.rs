//! Projecting a physically ordered keymap onto the scan matrix.
//!
//! The slots of a cell array are applied in order, each writing the action of
//! the physical key with the same index to the cell that the slot names, so
//! that of two slots on one cell the later one decides what the cell holds.

use vstd::prelude::*;

verus! {

/// Whether slot `i` of `cells` is taken for an unfilled one: a `(0, 0)` behind
/// the first slot, as a fixed-capacity parse leaves behind its last
/// coordinate. A key that really is wired to `(0, 0)` and declared later than
/// first cannot be told from such a slot and is passed over with it.
pub open spec fn is_gap(cells: Seq<(u8, u8)>, i: int) -> bool {
    i > 0 && cells[i] == (0u8, 0u8)
}

/// Whether slot `i` of `cells` writes to the cell `(row, col)` when `keys`
/// physical keys are projected: the slot exists, a physical key has its
/// index, it is no gap, and it names that cell.
pub open spec fn lands(cells: Seq<(u8, u8)>, keys: int, i: int, row: int, col: int) -> bool {
    &&& 0 <= i < cells.len()
    &&& i < keys
    &&& !is_gap(cells, i)
    &&& cells[i].0 == row
    &&& cells[i].1 == col
}

/// The last slot before `n` that writes to `(row, col)`, or -1 where none of
/// them does.
pub open spec fn last_landing(cells: Seq<(u8, u8)>, keys: int, row: int, col: int, n: int) -> int
    decreases n,
{
    if n <= 0 {
        -1
    } else if lands(cells, keys, n - 1, row, col) {
        n - 1
    } else {
        last_landing(cells, keys, row, col, n - 1)
    }
}

/// What the cell `(row, col)` of a layer holds once the first `n` slots of
/// `cells` are applied to the layer's keys `physical`: the action of the last
/// slot that wrote to it, or `no_op`.
pub open spec fn projected_upto<A>(
    cells: Seq<(u8, u8)>,
    physical: Seq<A>,
    no_op: A,
    row: int,
    col: int,
    n: int,
) -> A {
    let i = last_landing(cells, physical.len() as int, row, col, n);
    if i >= 0 {
        physical[i]
    } else {
        no_op
    }
}

/// What the cell `(row, col)` of a layer holds in the projection of the
/// layer's keys `physical` through `cells`.
pub open spec fn projected<A>(
    cells: Seq<(u8, u8)>,
    physical: Seq<A>,
    no_op: A,
    row: int,
    col: int,
) -> A {
    projected_upto(cells, physical, no_op, row, col, cells.len() as int)
}

/// Whether `grid` is the projection of `keymap_physical` through `cells`:
/// every cell of every layer holds what [`projected`] says of it.
pub open spec fn is_projection<
    A,
    const ROW: usize,
    const COL: usize,
    const NUM_LAYER: usize,
    const KEYS: usize,
>(
    grid: [[[A; COL]; ROW]; NUM_LAYER],
    cells: Seq<(u8, u8)>,
    keymap_physical: [[A; KEYS]; NUM_LAYER],
    no_op: A,
) -> bool {
    forall|l: int, r: int, c: int|
        0 <= l < NUM_LAYER && 0 <= r < ROW && 0 <= c < COL ==> #[trigger] grid[l][r][c]
            == projected(cells, keymap_physical[l]@, no_op, r, c)
}

/// Projects the physically ordered `keymap_physical` onto a matrix of `ROW`
/// by `COL` cells per layer.
///
/// Every cell starts as `no_op`. Then, layer by layer, the slots of `cells`
/// are applied in order: slot `i` writes the action of physical key `i` to
/// the cell it names. A slot is passed over where it is a `(0, 0)` behind the
/// first slot, where the layer has no key `i`, and where it names a cell
/// outside the matrix.
pub fn project<
    A: Copy,
    const ROW: usize,
    const COL: usize,
    const NUM_LAYER: usize,
    const KEYS: usize,
>(cells: &[(u8, u8)], keymap_physical: &[[A; KEYS]; NUM_LAYER], no_op: A) -> (pin_keymap: [[[A;
    COL]; ROW]; NUM_LAYER])
    ensures
        is_projection(pin_keymap, cells@, *keymap_physical, no_op),
{
    let mut pin_keymap = [[[no_op;COL];ROW];NUM_LAYER];

    for layer_idx in 0..NUM_LAYER
        invariant
            forall|l: int, r: int, c: int|
                0 <= l < layer_idx && 0 <= r < ROW && 0 <= c < COL ==> #[trigger] pin_keymap[l][r][c]
                    == projected(cells@, keymap_physical[l]@, no_op, r, c),
            forall|l: int, r: int, c: int|
                layer_idx <= l < NUM_LAYER && 0 <= r < ROW && 0 <= c < COL
                    ==> #[trigger] pin_keymap[l][r][c] == no_op,
    {
        for seq_idx in 0..cells.len()
            invariant
                layer_idx < NUM_LAYER,
                forall|l: int, r: int, c: int|
                    0 <= l < layer_idx && 0 <= r < ROW && 0 <= c < COL
                        ==> #[trigger] pin_keymap[l][r][c] == projected(
                        cells@,
                        keymap_physical[l]@,
                        no_op,
                        r,
                        c,
                    ),
                forall|l: int, r: int, c: int|
                    layer_idx < l < NUM_LAYER && 0 <= r < ROW && 0 <= c < COL
                        ==> #[trigger] pin_keymap[l][r][c] == no_op,
                forall|r: int, c: int|
                    0 <= r < ROW && 0 <= c < COL ==> #[trigger] pin_keymap[layer_idx as int][r][c]
                        == projected_upto(
                        cells@,
                        keymap_physical[layer_idx as int]@,
                        no_op,
                        r,
                        c,
                        seq_idx as int,
                    ),
        {
            let (row, col) = cells[seq_idx];
            // A (0, 0) behind the first slot stands for a slot that was never filled.
            let gap = row == 0 && col == 0 && seq_idx > 0;
            if !gap && seq_idx < KEYS && (row as usize) < ROW && (col as usize) < COL {
                let key_action = keymap_physical[layer_idx][seq_idx];
                pin_keymap[layer_idx][row as usize][col as usize] = key_action;
            }
        }
    }
    pin_keymap
}

} // verus!
