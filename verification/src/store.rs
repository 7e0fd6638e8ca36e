//! Block naming for the matrix block storage.
//!
//! A block's storage name is its base name followed by the row and column
//! block coordinates, each rendered in lowercase hexadecimal padded to at
//! least four digits.

use vstd::prelude::*;
use vstd::string::StringExecFns;

use crate::types::BlockIndex;

verus! {

/// The lowercase hexadecimal digit of a value below 16.
pub open spec fn hex_char(d: int) -> char {
    if d == 0 {
        '0'
    } else if d == 1 {
        '1'
    } else if d == 2 {
        '2'
    } else if d == 3 {
        '3'
    } else if d == 4 {
        '4'
    } else if d == 5 {
        '5'
    } else if d == 6 {
        '6'
    } else if d == 7 {
        '7'
    } else if d == 8 {
        '8'
    } else if d == 9 {
        '9'
    } else if d == 10 {
        'a'
    } else if d == 11 {
        'b'
    } else if d == 12 {
        'c'
    } else if d == 13 {
        'd'
    } else if d == 14 {
        'e'
    } else {
        'f'
    }
}

/// Lowercase hexadecimal rendering of a value, without leading zeros.
pub open spec fn hex_seq(v: nat) -> Seq<char>
    decreases v,
{
    if v < 16 {
        seq![hex_char(v as int)]
    } else {
        hex_seq(v / 16).push(hex_char((v % 16) as int))
    }
}

/// Lowercase hexadecimal rendering padded with zeros to at least four
/// digits.
pub open spec fn hex4(v: nat) -> Seq<char> {
    if v < 0x10 {
        seq!['0', '0', '0'] + hex_seq(v)
    } else if v < 0x100 {
        seq!['0', '0'] + hex_seq(v)
    } else if v < 0x1000 {
        seq!['0'] + hex_seq(v)
    } else {
        hex_seq(v)
    }
}

/// One lowercase hexadecimal digit as a string slice.
fn hex_digit_str(d: u8) -> (r: &'static str)
    requires
        d < 16,
    ensures
        r@ =~= seq![hex_char(d as int)],
{
    proof {
        reveal_strlit("0");
        reveal_strlit("1");
        reveal_strlit("2");
        reveal_strlit("3");
        reveal_strlit("4");
        reveal_strlit("5");
        reveal_strlit("6");
        reveal_strlit("7");
        reveal_strlit("8");
        reveal_strlit("9");
        reveal_strlit("a");
        reveal_strlit("b");
        reveal_strlit("c");
        reveal_strlit("d");
        reveal_strlit("e");
        reveal_strlit("f");
    }
    if d == 0 {
        "0"
    } else if d == 1 {
        "1"
    } else if d == 2 {
        "2"
    } else if d == 3 {
        "3"
    } else if d == 4 {
        "4"
    } else if d == 5 {
        "5"
    } else if d == 6 {
        "6"
    } else if d == 7 {
        "7"
    } else if d == 8 {
        "8"
    } else if d == 9 {
        "9"
    } else if d == 10 {
        "a"
    } else if d == 11 {
        "b"
    } else if d == 12 {
        "c"
    } else if d == 13 {
        "d"
    } else if d == 14 {
        "e"
    } else {
        "f"
    }
}

/// Append the hexadecimal rendering of `v`, without leading zeros.
fn push_hex(s: &mut String, v: usize)
    ensures
        final(s)@ =~= old(s)@ + hex_seq(v as nat),
    decreases v,
{
    if v < 16 {
        s.append(hex_digit_str(v as u8));
    } else {
        push_hex(s, v / 16);
        s.append(hex_digit_str((v % 16) as u8));
    }
}

/// Append the hexadecimal rendering of `v`, zero-padded to at least four
/// digits.
fn push_hex4(s: &mut String, v: usize)
    ensures
        final(s)@ =~= old(s)@ + hex4(v as nat),
{
    proof {
        reveal_strlit("0");
    }
    if v < 0x10 {
        s.append("0");
        s.append("0");
        s.append("0");
    } else if v < 0x100 {
        s.append("0");
        s.append("0");
    } else if v < 0x1000 {
        s.append("0");
    }
    push_hex(s, v);
}

/// Build the storage name of one block: the base name, then the row and
/// column block coordinates, each in lowercase hexadecimal padded to at
/// least four digits and separated by underscores.
pub fn make_block_name(base_name: &str, index: BlockIndex) -> (r: String)
    ensures
        r@ =~= base_name@ + "_"@ + hex4(index.row as nat) + "_"@ + hex4(index.col as nat),
{
    let mut name = base_name.to_owned();
    name.append("_");
    push_hex4(&mut name, index.row);
    name.append("_");
    push_hex4(&mut name, index.col);
    name
}

} // verus!
