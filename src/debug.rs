//! A readable two-column hexadecimal dump of bytes.
use crate::text::string_of;
use vstd::prelude::*;

verus! {

/// Bytes in a column of the dump.
pub const DEBUG_COLUMN_WIDTH: usize = 8;

/// Columns in a row of the dump.
pub const DEBUG_COLUMN_COUNT: usize = 2;

/// The upper-case hexadecimal digit of `d`, or `?` past 15.
pub open spec fn digit_char(d: u8) -> char {
    if d < 10 {
        ((d + 48) as u8) as char
    } else if d < 16 {
        ((d + 55) as u8) as char
    } else {
        '?'
    }
}

/// What follows the `k`-th byte (from 1): a newline after a row, two spaces
/// after a column, one space otherwise.
pub open spec fn separator(k: nat) -> Seq<char> {
    if k % 16 == 0 {
        seq!['\n']
    } else if k % 8 == 0 {
        seq![' ', ' ']
    } else {
        seq![' ']
    }
}

/// The dump of `b`: two digits for each byte, then its separator.
pub open spec fn hex_dump(b: Seq<u8>) -> Seq<char>
    decreases b.len(),
{
    if b.len() == 0 {
        Seq::empty()
    } else {
        hex_dump(b.drop_last()) + seq![digit_char(b.last() / 16), digit_char(b.last() % 16)]
            + separator(b.len())
    }
}

pub fn encode_digit(digit: u8) -> (r: char)
    ensures
        r == digit_char(digit),
{
    if digit < 10 {
        (digit + 48) as char
    } else if digit < 16 {
        (digit + 55) as char
    } else {
        '?'
    }
}

/// The dump of `bytes`, as [`hex_dump`] says.
pub fn debug_bytes(bytes: &Vec<u8>) -> (r: String)
    ensures
        r@ == hex_dump(bytes@),
{
    let mut result: Vec<char> = Vec::new();
    let mut index: usize = 0;
    while index < bytes.len()
        invariant
            index <= bytes@.len(),
            result@ == hex_dump(bytes@.subrange(0, index as int)),
        decreases bytes@.len() - index,
    {
        let byte = bytes[index];
        result.push(encode_digit(byte / 16));
        result.push(encode_digit(byte % 16));
        index += 1;
        if index % (DEBUG_COLUMN_WIDTH * DEBUG_COLUMN_COUNT) == 0 {
            result.push('\n');
        } else if index % DEBUG_COLUMN_WIDTH == 0 {
            result.push(' ');
            result.push(' ');
        } else {
            result.push(' ');
        }
        proof {
            let s = bytes@.subrange(0, index as int);
            assert(s.drop_last() =~= bytes@.subrange(0, index - 1));
            assert(s.last() == byte);
        }
        assert(result@ =~= hex_dump(bytes@.subrange(0, index as int)));
    }
    assert(bytes@.subrange(0, bytes@.len() as int) =~= bytes@);
    string_of(&result, 0, result.len())
}

} // verus!
