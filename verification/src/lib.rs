//! Matrix maps for split keyboards.
//!
//! A keymap is written in the order a layout diagram is read, while the scan
//! matrix addresses keys by the row and column they are wired to. This crate
//! holds the small text grammar that lists the wiring of each key in reading
//! order, the projection of a physically ordered keymap onto the matrix, and
//! the map of which hand owns each matrix cell.

pub mod coordinate;
pub mod grammar;
pub mod hand;
pub mod hand_map;
pub mod key_position;
pub mod laws;
pub mod matrix_map;
pub mod positions;
pub mod projection;
pub mod scanner;
