//! Reading a process identifier from text that a user typed.

use crate::text::{decimal_value, is_decimal_digit};
use vstd::prelude::*;
use vstd::string::StrSliceExecFns;

verus! {

/// Whether `c` is white space: one of the characters with the Unicode
/// property White_Space.
pub open spec fn is_white_space(c: char) -> bool {
    let v = c as u32;
    ||| 0x09 <= v <= 0x0D
    ||| v == 0x20
    ||| v == 0x85
    ||| v == 0xA0
    ||| v == 0x1680
    ||| 0x2000 <= v <= 0x200A
    ||| v == 0x2028
    ||| v == 0x2029
    ||| v == 0x202F
    ||| v == 0x205F
    ||| v == 0x3000
}

/// `text` without the white space at its start.
pub open spec fn trimmed_start(text: Seq<char>) -> Seq<char>
    decreases text.len(),
{
    if text.len() > 0 && is_white_space(text[0]) {
        trimmed_start(text.skip(1))
    } else {
        text
    }
}

/// `text` without the white space at its end.
pub open spec fn trimmed_end(text: Seq<char>) -> Seq<char>
    decreases text.len(),
{
    if text.len() > 0 && is_white_space(text.last()) {
        trimmed_end(text.drop_last())
    } else {
        text
    }
}

/// `text` without the white space at its start and at its end.
pub open spec fn trimmed(text: Seq<char>) -> Seq<char> {
    trimmed_end(trimmed_start(text))
}

/// `text` without one plus sign at its start, if it has one.
pub open spec fn unsigned_part(text: Seq<char>) -> Seq<char> {
    if text.len() > 0 && text[0] == '+' {
        text.skip(1)
    } else {
        text
    }
}

/// Whether `text` is made of decimal digits only, and of at least one.
pub open spec fn is_numeral(text: Seq<char>) -> bool {
    text.len() > 0 && forall|i: int| 0 <= i < text.len() ==> is_decimal_digit(#[trigger] text[i])
}

/// The identifier that `text` denotes: white space around it is set aside,
/// then one plus sign in front; what is left must be a decimal numeral of a
/// value that fits 32 bits.
pub open spec fn identifier_of(text: Seq<char>) -> Option<u32> {
    let numeral = unsigned_part(trimmed(text));
    if is_numeral(numeral) && decimal_value(numeral) <= u32::MAX {
        Some(decimal_value(numeral) as u32)
    } else {
        None
    }
}

/// The value of a numeral is at least that of each of its beginnings.
pub proof fn lemma_decimal_value_grows(digits: Seq<char>, n: int)
    requires
        forall|i: int| 0 <= i < digits.len() ==> is_decimal_digit(#[trigger] digits[i]),
        0 <= n <= digits.len(),
    ensures
        decimal_value(digits.take(n)) <= decimal_value(digits),
    decreases digits.len() - n,
{
    if n < digits.len() {
        let longer = digits.take(n + 1);
        assert(longer.drop_last() == digits.take(n));
        assert(is_decimal_digit(digits[n]));
        assert(longer.last() == digits[n]);
        lemma_decimal_value_grows(digits, n + 1);
    } else {
        assert(digits.take(n) == digits);
    }
}

fn is_white_space_char(c: char) -> (b: bool)
    ensures
        b == is_white_space(c),
{
    let v: u32 = c as u32;
    (0x09 <= v && v <= 0x0D) || v == 0x20 || v == 0x85 || v == 0xA0 || v == 0x1680 || (0x2000 <= v
        && v <= 0x200A) || v == 0x2028 || v == 0x2029 || v == 0x202F || v == 0x205F || v == 0x3000
}

/// Reads a process identifier from `text`. White space around the number is
/// allowed, and one plus sign in front of it. `None` where what is left is
/// empty, holds anything but decimal digits, or denotes a value above
/// `u32::MAX`.
pub fn parse_identifier(text: &str) -> (pid: Option<u32>)
    ensures
        pid == identifier_of(text@),
{
    let length = text.unicode_len();
    let mut start: usize = 0;
    assert(text@.skip(0) == text@);
    while start < length && is_white_space_char(text.get_char(start))
        invariant
            start <= length == text@.len(),
            trimmed_start(text@) == trimmed_start(text@.skip(start as int)),
        decreases length - start,
    {
        assert(text@.skip(start as int).skip(1) == text@.skip(start + 1));
        start += 1;
    }
    let ghost tail = text@.skip(start as int);
    assert(trimmed_start(text@) == tail);
    let mut end: usize = length;
    assert(tail.take(end - start) == tail);
    while end > start && is_white_space_char(text.get_char(end - 1))
        invariant
            start <= end <= length == text@.len(),
            tail == text@.skip(start as int),
            trimmed_end(tail) == trimmed_end(tail.take(end - start)),
        decreases end,
    {
        assert(tail.take(end - start).drop_last() == tail.take(end - 1 - start));
        end -= 1;
    }
    let ghost core = text@.subrange(start as int, end as int);
    assert(tail.take(end - start) == core);
    assert(trimmed(text@) == core);
    if start < end && text.get_char(start) == '+' {
        start += 1;
    }
    let ghost numeral = text@.subrange(start as int, end as int);
    assert(numeral == unsigned_part(core));
    if start == end {
        return None;
    }
    let mut value: u64 = 0;
    let mut i: usize = start;
    assert(numeral.take(0).len() == 0);
    while i < end
        invariant
            start <= i <= end <= length == text@.len(),
            numeral == text@.subrange(start as int, end as int),
            numeral == unsigned_part(trimmed(text@)),
            forall|k: int| 0 <= k < i - start ==> is_decimal_digit(#[trigger] numeral[k]),
            value == decimal_value(numeral.take(i - start)),
            value <= u32::MAX,
        decreases end - i,
    {
        let c = text.get_char(i);
        assert(numeral[i - start] == c);
        if c < '0' || c > '9' {
            return None;
        }
        let ghost longer = numeral.take(i - start + 1);
        assert(longer.drop_last() == numeral.take(i - start));
        assert(longer.last() == c);
        value = value * 10 + (c as u64 - 48);
        if value > 0xFFFF_FFFF {
            proof {
                if is_numeral(numeral) {
                    lemma_decimal_value_grows(numeral, i - start + 1);
                }
            }
            return None;
        }
        i += 1;
    }
    assert(numeral.take(end - start) == numeral);
    Some(value as u32)
}

} // verus!
