//! Parsing a matrix map into coordinates that keep their hand.

use vstd::prelude::*;
use vstd::string::StringSliceAdditionalSpecFns;
use crate::coordinate::Coordinate;
use crate::grammar::{coordinates, CLOSE, OPEN};
use crate::hand::Hand;
use crate::scanner::{find, parse_triple};

verus! {

/// How many of `found` coordinates an array of `capacity` slots takes.
pub open spec fn taken(found: Seq<Coordinate>, capacity: nat) -> nat {
    if found.len() <= capacity {
        found.len()
    } else {
        capacity
    }
}

/// What a coordinate array of `capacity` slots holds once it is filled from
/// `found`: the first `capacity` coordinates, in order, and the vacant
/// coordinate in every slot behind them.
pub open spec fn coordinate_slots(found: Seq<Coordinate>, capacity: nat) -> Seq<Coordinate> {
    Seq::new(
        capacity,
        |k: int|
            if k < found.len() {
                found[k]
            } else {
                Coordinate::vacant()
            },
    )
}

/// Parses the coordinates that a matrix map declares into an array of
/// `MAX_COORDS` slots, and counts them.
///
/// Slot `k` holds the `k`-th coordinate of the text. Coordinates beyond the
/// capacity are dropped. The count says how many slots were filled; the slots
/// behind them hold the vacant coordinate.
pub fn parse_positions<const MAX_COORDS: usize>(matrix_map: &str) -> (positions: (
    [Coordinate; MAX_COORDS],
    usize,
))
    ensures
        positions.0@ == coordinate_slots(coordinates(matrix_map.spec_bytes()), MAX_COORDS as nat),
        positions.1 == taken(coordinates(matrix_map.spec_bytes()), MAX_COORDS as nat),
{
    let mut slots = [Coordinate { row: 0, col: 0, hand: Hand::Unknown };MAX_COORDS];
    let mut count: usize = 0;
    let mut i: usize = 0;
    let bytes = matrix_map.as_bytes();
    let ghost mut found: Seq<Coordinate> = Seq::empty();

    assert(bytes@.skip(0) == bytes@);
    while i < bytes.len() && count < MAX_COORDS
        invariant
            i <= bytes@.len(),
            count <= MAX_COORDS,
            found.len() == count,
            coordinates(bytes@) == found + coordinates(bytes@.skip(i as int)),
            forall|k: int| 0 <= k < count ==> slots@[k] == found[k],
            forall|k: int| count <= k < MAX_COORDS ==> slots@[k] == Coordinate::vacant(),
        decreases bytes@.len() - i,
    {
        let ghost here = bytes@.skip(i as int);
        assert(here.skip(1) == bytes@.skip(i + 1));
        if bytes[i] == OPEN {
            // The payload runs up to the next closing parenthesis.
            let rest = &bytes[i + 1..bytes.len()];
            let j = i + 1 + find(rest, CLOSE);
            if j < bytes.len() {
                let payload = &bytes[i + 1..j];
                assert(payload@ == rest@.take(j - i - 1));
                assert(rest@.skip(j - i) == bytes@.skip(j + 1));
                if let Some(c) = parse_triple(payload) {
                    slots[count] = c;
                    count += 1;
                    proof {
                        found = found.push(c);
                    }
                }
                i = j + 1;
            } else {
                i += 1;
            }
        } else {
            i += 1;
        }
    }
    (slots, count)
}

} // verus!
