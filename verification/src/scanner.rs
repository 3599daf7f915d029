//! Reading the coordinate grammar from bytes.
//!
//! Each function here computes one notion of [`crate::grammar`] on a byte
//! slice, without allocating.

use vstd::prelude::*;
use crate::coordinate::Coordinate;
use crate::grammar::{
    all_digits, decimal, fields, find_byte, hand_of, is_digit, is_space1, is_space2, is_space3,
    leading_space, lemma_find_byte_is_unique, number, trailing_space, trim, trim_end, trim_start,
    triple, unsigned, COMMA, DIGIT_NINE, DIGIT_ZERO, LETTER_RIGHT, PLUS,
};
use crate::hand::Hand;

verus! {

/// Finds the first `b` in `s`; returns `s.len()` where there is none.
pub fn find(s: &[u8], b: u8) -> (at: usize)
    ensures
        at == find_byte(s@, b),
        at <= s@.len(),
{
    let mut at: usize = 0;
    while at < s.len() && s[at] != b
        invariant
            at <= s@.len(),
            forall|k: int| 0 <= k < at ==> s@[k] != b,
        decreases s@.len() - at,
    {
        at += 1;
    }
    proof {
        lemma_find_byte_is_unique(s@, b, at as int);
    }
    at
}

fn space1(a: u8) -> (r: bool)
    ensures
        r == is_space1(a),
{
    a == 0x20 || (0x09 <= a && a <= 0x0d)
}

fn space2(a: u8, b: u8) -> (r: bool)
    ensures
        r == is_space2(a, b),
{
    a == 0xc2 && (b == 0x85 || b == 0xa0)
}

fn space3(a: u8, b: u8, c: u8) -> (r: bool)
    ensures
        r == is_space3(a, b, c),
{
    (a == 0xe1 && b == 0x9a && c == 0x80) || (a == 0xe2 && b == 0x80 && ((0x80 <= c && c <= 0x8a)
        || c == 0xa8 || c == 0xa9 || c == 0xaf)) || (a == 0xe2 && b == 0x81 && c == 0x9f) || (a
        == 0xe3 && b == 0x80 && c == 0x80)
}

/// Width of the white-space character at the front of `s`.
fn space_front(s: &[u8]) -> (w: usize)
    ensures
        w == leading_space(s@),
        w <= s@.len(),
{
    let n = s.len();
    if n >= 1 && space1(s[0]) {
        1
    } else if n >= 2 && space2(s[0], s[1]) {
        2
    } else if n >= 3 && space3(s[0], s[1], s[2]) {
        3
    } else {
        0
    }
}

/// Width of the white-space character at the back of `s`.
fn space_back(s: &[u8]) -> (w: usize)
    ensures
        w == trailing_space(s@),
        w <= s@.len(),
{
    let n = s.len();
    if n >= 1 && space1(s[n - 1]) {
        1
    } else if n >= 2 && space2(s[n - 2], s[n - 1]) {
        2
    } else if n >= 3 && space3(s[n - 3], s[n - 2], s[n - 1]) {
        3
    } else {
        0
    }
}

/// Strips the white space around `s`.
pub fn trim_bytes(s: &[u8]) -> (t: &[u8])
    ensures
        t@ == trim(s@),
{
    let mut t = s;
    let mut w = space_front(t);
    while w > 0
        invariant
            w == leading_space(t@),
            w <= t@.len(),
            trim_start(t@) == trim_start(s@),
        decreases t@.len(),
    {
        t = &t[w..t.len()];
        w = space_front(t);
    }
    let ghost front = t@;
    w = space_back(t);
    while w > 0
        invariant
            w == trailing_space(t@),
            w <= t@.len(),
            trim_end(t@) == trim_end(front),
        decreases t@.len(),
    {
        t = &t[0..t.len() - w];
        w = space_back(t);
    }
    t
}

/// A prefix of a run of digits writes no more than the whole run.
proof fn lemma_decimal_grows(s: Seq<u8>, n: int)
    requires
        all_digits(s),
        0 <= n <= s.len(),
    ensures
        decimal(s.take(n)) <= decimal(s),
    decreases s.len() - n,
{
    if n < s.len() {
        let longer = s.take(n + 1);
        assert(longer.drop_last() =~= s.take(n));
        lemma_decimal_grows(s, n + 1);
    } else {
        assert(s.take(n) =~= s);
    }
}

/// Reads the row or column that the trimmed field `s` names.
pub fn parse_number(s: &[u8]) -> (r: Option<u8>)
    ensures
        r == number(s@),
{
    let start: usize = if s.len() > 0 && s[0] == PLUS {
        1
    } else {
        0
    };
    let d = &s[start..s.len()];
    if d.len() == 0 {
        return None;
    }
    let mut value: u16 = 0;
    let mut n: usize = 0;
    while n < d.len()
        invariant
            d@ == unsigned(s@),
            d@.len() > 0,
            n <= d@.len(),
            all_digits(d@.take(n as int)),
            value == decimal(d@.take(n as int)),
            value <= u8::MAX,
        decreases d@.len() - n,
    {
        let b = d[n];
        if b < DIGIT_ZERO || b > DIGIT_NINE {
            return None;
        }
        let ghost longer = d@.take(n + 1);
        assert(longer.drop_last() =~= d@.take(n as int));
        let next: u16 = value * 10 + (b - DIGIT_ZERO) as u16;
        if next > 255 {
            proof {
                if all_digits(d@) {
                    lemma_decimal_grows(d@, n + 1);
                }
            }
            return None;
        }
        assert forall|k: int| 0 <= k < longer.len() implies is_digit(#[trigger] longer[k]) by {
            if k < n {
                assert(longer[k] == d@.take(n as int)[k]);
            }
        }
        value = next;
        n += 1;
    }
    assert(d@.take(n as int) =~= d@);
    Some(value as u8)
}

/// Reads the hand that the trimmed field `s` names.
pub fn parse_hand(s: &[u8]) -> (r: Hand)
    ensures
        r == hand_of(s@),
{
    if s.len() > 0 && s[0] == LETTER_RIGHT {
        Hand::Right
    } else {
        Hand::Left
    }
}

/// Reads the coordinate that the payload `s` declares.
pub fn parse_triple(s: &[u8]) -> (r: Option<Coordinate>)
    ensures
        r == triple(s@),
{
    let a = find(s, COMMA);
    if a >= s.len() {
        return None;
    }
    let rest = &s[a + 1..s.len()];
    assert(fields(s@) == seq![s@.take(a as int)] + fields(rest@));
    let b = find(rest, COMMA);
    if b >= rest.len() {
        // One comma: two fields.
        assert(fields(rest@) == seq![rest@]);
        return None;
    }
    let last = &rest[b + 1..rest.len()];
    assert(fields(rest@) == seq![rest@.take(b as int)] + fields(last@));
    let c = find(last, COMMA);
    if c < last.len() {
        // A third comma: four fields or more.
        assert(fields(last@) == seq![last@.take(c as int)] + fields(last@.skip(c + 1)));
        return None;
    }
    let first = &s[0..a];
    let second = &rest[0..b];
    assert(fields(s@) == seq![first@, second@, last@]);
    let row = parse_number(trim_bytes(first));
    let col = parse_number(trim_bytes(second));
    match (row, col) {
        (Some(row), Some(col)) => Some(
            Coordinate { row, col, hand: parse_hand(trim_bytes(last)) },
        ),
        _ => None,
    }
}

} // verus!
