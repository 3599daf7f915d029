//! Key positions of the Corne keyboard: 42 keys on a matrix of 8 rows by 6
//! columns, of which rows 0 to 3 are wired to the left half and rows 4 to 7
//! to the right half.

use vstd::prelude::*;
use crate::hand::Hand;

verus! {

/// Rows of the Corne scan matrix.
pub const ROW: usize = 8;

/// Columns of the Corne scan matrix.
pub const COL: usize = 6;

/// Physical keys of the Corne keyboard.
pub const KEYS: usize = 42;

/// The matrix map of the Corne keyboard, in reading order: three rows of six
/// keys and a thumb row of three keys for each half, the columns of the right
/// half mirrored.
pub const MATRIX_MAP: &'static str = "
(0,0, L) (0,1, L) (0,2, L) (0,3, L) (0,4, L) (0,5, L)                        (4,5, R) (4,4, R) (4,3, R) (4,2, R) (4,1, R) (4,0, R)
(1,0, L) (1,1, L) (1,2, L) (1,3, L) (1,4, L) (1,5, L)                        (5,5, R) (5,4, R) (5,3, R) (5,2, R) (5,1, R) (5,0, R)
(2,0, L) (2,1, L) (2,2, L) (2,3, L) (2,4, L) (2,5, L)                        (6,5, R) (6,4, R) (6,3, R) (6,2, R) (6,1, R) (6,0, R)
                           (3,3, L) (3,4, L) (3,5, L)                        (7,5, R) (7,4, R) (7,3, R)
";

/// What is known of a matrix by position alone: the hand on each cell.
#[derive(Clone, Copy, Debug, PartialEq, Eq)]
pub struct PositionalConfig<const ROW: usize, const COL: usize> {
    /// The hand that owns each cell, by row and column.
    pub hand: [[Hand; COL]; ROW],
}

/// The hand on the cell `(row, col)` of the Corne matrix. Rows 0 to 2 are the
/// left half and rows 4 to 6 the right half. Rows 3 and 7 are their thumb
/// rows, of which only columns 3 to 5 carry a key.
pub open spec fn corne_hand(row: int, col: int) -> Hand {
    if (row == 3 || row == 7) && col < 3 {
        Hand::Unknown
    } else if row < 4 {
        Hand::Left
    } else {
        Hand::Right
    }
}

/// The positional configuration of the Corne keyboard.
pub fn create_corne_positional_config() -> (config: PositionalConfig<8, 6>)
    ensures
        forall|r: int, c: int|
            0 <= r < 8 && 0 <= c < 6 ==> #[trigger] config.hand[r][c] == corne_hand(r, c),
{
    PositionalConfig {
        hand: [
            // Row 0: left hand
            [Hand::Left, Hand::Left, Hand::Left, Hand::Left, Hand::Left, Hand::Left],
            // Row 1: left hand
            [Hand::Left, Hand::Left, Hand::Left, Hand::Left, Hand::Left, Hand::Left],
            // Row 2: left hand
            [Hand::Left, Hand::Left, Hand::Left, Hand::Left, Hand::Left, Hand::Left],
            // Row 3: left thumb cluster on columns 3 to 5
            [Hand::Unknown, Hand::Unknown, Hand::Unknown, Hand::Left, Hand::Left, Hand::Left],
            // Row 4: right hand
            [Hand::Right, Hand::Right, Hand::Right, Hand::Right, Hand::Right, Hand::Right],
            // Row 5: right hand
            [Hand::Right, Hand::Right, Hand::Right, Hand::Right, Hand::Right, Hand::Right],
            // Row 6: right hand
            [Hand::Right, Hand::Right, Hand::Right, Hand::Right, Hand::Right, Hand::Right],
            // Row 7: right thumb cluster on columns 3 to 5
            [Hand::Unknown, Hand::Unknown, Hand::Unknown, Hand::Right, Hand::Right, Hand::Right],
        ],
    }
}

} // verus!
