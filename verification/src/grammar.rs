//! The coordinate grammar.
//!
//! A matrix map is free text in which every parenthesised triple
//! `(row, col, hand)` declares one key. The grammar is defined on the bytes of
//! the UTF-8 text: the parentheses and commas that structure it are single
//! bytes that occur nowhere inside a longer character.

use vstd::prelude::*;
use crate::coordinate::Coordinate;
use crate::hand::Hand;

verus! {

/// `(`, which opens a token.
pub const OPEN: u8 = 0x28;

/// `)`, which closes a token.
pub const CLOSE: u8 = 0x29;

/// `,`, which separates the fields of a token.
pub const COMMA: u8 = 0x2c;

/// `+`, the one sign a number may carry.
pub const PLUS: u8 = 0x2b;

/// `0`, the first of the ten digits.
pub const DIGIT_ZERO: u8 = 0x30;

/// `9`, the last of the ten digits.
pub const DIGIT_NINE: u8 = 0x39;

/// `R`, the letter of the right hand.
pub const LETTER_RIGHT: u8 = 0x52;

/// Index of the first `b` in `s`, or `s.len()` where `s` holds none.
pub open spec fn find_byte(s: Seq<u8>, b: u8) -> nat
    decreases s.len(),
{
    if s.len() == 0 || s[0] == b {
        0
    } else {
        1 + find_byte(s.skip(1), b)
    }
}

/// What `find_byte` finds: an index of the text or its length, at which `b`
/// stands unless the text has ended, and before which `b` does not occur.
pub proof fn lemma_find_byte_is_first(s: Seq<u8>, b: u8)
    ensures
        find_byte(s, b) <= s.len(),
        find_byte(s, b) < s.len() ==> s[find_byte(s, b) as int] == b,
        forall|k: int| 0 <= k < find_byte(s, b) ==> s[k] != b,
    decreases s.len(),
{
    if s.len() > 0 && s[0] != b {
        let rest = s.skip(1);
        lemma_find_byte_is_first(rest, b);
        assert forall|k: int| 0 <= k < find_byte(s, b) implies s[k] != b by {
            if k > 0 {
                assert(rest[k - 1] == s[k]);
            }
        }
    }
}

/// `find_byte` is the one index before which `b` does not occur and at which
/// it does, or the text ends.
pub proof fn lemma_find_byte_is_unique(s: Seq<u8>, b: u8, at: int)
    requires
        0 <= at <= s.len(),
        forall|k: int| 0 <= k < at ==> s[k] != b,
        at == s.len() || s[at] == b,
    ensures
        find_byte(s, b) == at,
    decreases s.len(),
{
    if at > 0 {
        let rest = s.skip(1);
        assert forall|k: int| 0 <= k < at - 1 implies rest[k] != b by {
            assert(rest[k] == s[k + 1]);
        }
        lemma_find_byte_is_unique(rest, b, at - 1);
    }
}

/// A white-space character that takes one byte: space, tab, line feed,
/// vertical tab, form feed, carriage return.
pub open spec fn is_space1(a: u8) -> bool {
    a == 0x20 || (0x09 <= a && a <= 0x0d)
}

/// A white-space character that takes two bytes: U+0085 and U+00A0.
pub open spec fn is_space2(a: u8, b: u8) -> bool {
    a == 0xc2 && (b == 0x85 || b == 0xa0)
}

/// A white-space character that takes three bytes: U+1680, U+2000 to U+200A,
/// U+2028, U+2029, U+202F, U+205F and U+3000.
pub open spec fn is_space3(a: u8, b: u8, c: u8) -> bool {
    ||| a == 0xe1 && b == 0x9a && c == 0x80
    ||| a == 0xe2 && b == 0x80 && ((0x80 <= c && c <= 0x8a) || c == 0xa8 || c == 0xa9 || c == 0xaf)
    ||| a == 0xe2 && b == 0x81 && c == 0x9f
    ||| a == 0xe3 && b == 0x80 && c == 0x80
}

/// Number of bytes of the white-space character that `s` starts with, 0 where
/// it starts with none.
pub open spec fn leading_space(s: Seq<u8>) -> int {
    if s.len() >= 1 && is_space1(s[0]) {
        1
    } else if s.len() >= 2 && is_space2(s[0], s[1]) {
        2
    } else if s.len() >= 3 && is_space3(s[0], s[1], s[2]) {
        3
    } else {
        0
    }
}

/// Number of bytes of the white-space character that `s` ends with, 0 where
/// it ends with none.
pub open spec fn trailing_space(s: Seq<u8>) -> int {
    let n = s.len() as int;
    if n >= 1 && is_space1(s[n - 1]) {
        1
    } else if n >= 2 && is_space2(s[n - 2], s[n - 1]) {
        2
    } else if n >= 3 && is_space3(s[n - 3], s[n - 2], s[n - 1]) {
        3
    } else {
        0
    }
}

/// `s` without the white space it starts with.
pub open spec fn trim_start(s: Seq<u8>) -> Seq<u8>
    decreases s.len(),
{
    let w = leading_space(s);
    if w > 0 {
        trim_start(s.skip(w))
    } else {
        s
    }
}

/// `s` without the white space it ends with.
pub open spec fn trim_end(s: Seq<u8>) -> Seq<u8>
    decreases s.len(),
{
    let w = trailing_space(s);
    if w > 0 {
        trim_end(s.take(s.len() - w))
    } else {
        s
    }
}

/// `s` without the white space around it.
pub open spec fn trim(s: Seq<u8>) -> Seq<u8> {
    trim_end(trim_start(s))
}

/// Whether `b` is one of the ten decimal digits.
pub open spec fn is_digit(b: u8) -> bool {
    DIGIT_ZERO <= b && b <= DIGIT_NINE
}

/// Whether `s` holds decimal digits only.
pub open spec fn all_digits(s: Seq<u8>) -> bool {
    forall|k: int| 0 <= k < s.len() ==> is_digit(#[trigger] s[k])
}

/// The number that the decimal digits `s` write; the empty sequence writes 0.
pub open spec fn decimal(s: Seq<u8>) -> nat
    decreases s.len(),
{
    if s.len() == 0 {
        0
    } else {
        10 * decimal(s.drop_last()) + (s.last() - DIGIT_ZERO) as nat
    }
}

/// `s` without the `+` it may start with.
pub open spec fn unsigned(s: Seq<u8>) -> Seq<u8> {
    if s.len() > 0 && s[0] == PLUS {
        s.skip(1)
    } else {
        s
    }
}

/// The row or column that the trimmed field `s` names: an optional `+` and
/// then one or more decimal digits, leading zeros allowed, writing a number
/// of at most 255. Any other field names none.
pub open spec fn number(s: Seq<u8>) -> Option<u8> {
    let d = unsigned(s);
    if d.len() > 0 && all_digits(d) && decimal(d) <= u8::MAX {
        Some(decimal(d) as u8)
    } else {
        None
    }
}

/// The hand that the trimmed field `s` names: right where it starts with `R`,
/// left for every other field, the empty one too.
pub open spec fn hand_of(s: Seq<u8>) -> Hand {
    if s.len() > 0 && s[0] == LETTER_RIGHT {
        Hand::Right
    } else {
        Hand::Left
    }
}

/// The fields of a payload: the stretches between its commas. A payload with
/// `n` commas has `n + 1` fields, some of which may be empty.
pub open spec fn fields(s: Seq<u8>) -> Seq<Seq<u8>>
    decreases s.len(),
{
    let at = find_byte(s, COMMA) as int;
    if at >= s.len() {
        seq![s]
    } else {
        seq![s.take(at)] + fields(s.skip(at + 1))
    }
}

/// The coordinate that a payload declares: it has exactly three fields, of
/// which the first two, trimmed, name the row and the column, and the third,
/// trimmed, the hand. Any other payload declares none.
pub open spec fn triple(s: Seq<u8>) -> Option<Coordinate> {
    let f = fields(s);
    if f.len() == 3 {
        match (number(trim(f[0])), number(trim(f[1]))) {
            (Some(row), Some(col)) => Some(Coordinate { row, col, hand: hand_of(trim(f[2])) }),
            _ => None,
        }
    } else {
        None
    }
}

/// What a payload adds to the coordinates of a text: its coordinate, or
/// nothing where it declares none.
pub open spec fn declared(s: Seq<u8>) -> Seq<Coordinate> {
    match triple(s) {
        Some(c) => seq![c],
        None => Seq::empty(),
    }
}

/// The coordinates that the text `s` declares, in the order in which it
/// declares them. The text is read from the left. A `(` opens a token whose
/// payload runs up to the next `)`; where no `)` follows, the `(` is skipped
/// like any other byte. Bytes outside tokens and payloads that declare no
/// coordinate add nothing.
pub open spec fn coordinates(s: Seq<u8>) -> Seq<Coordinate>
    decreases s.len(),
{
    if s.len() == 0 {
        Seq::empty()
    } else if s[0] != OPEN {
        coordinates(s.skip(1))
    } else {
        let rest = s.skip(1);
        let at = find_byte(rest, CLOSE) as int;
        if at >= rest.len() {
            coordinates(rest)
        } else {
            declared(rest.take(at)) + coordinates(rest.skip(at + 1))
        }
    }
}

} // verus!
