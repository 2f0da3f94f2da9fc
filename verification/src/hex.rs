//! Hexadecimal rendering of 64-bit values for the exception reports: the
//! one piece of text formatting the trap layer computes itself.

use vstd::prelude::*;
use vstd::string::StringExecFns;

verus! {

/// The character for one hex digit (`d < 16`).
pub open spec fn hex_digit(d: int) -> char {
    if d == 0 {
        '0'
    } else if d == 1 {
        '1'
    } else if d == 2 {
        '2'
    } else if d == 3 {
        '3'
    } else if d == 4 {
        '4'
    } else if d == 5 {
        '5'
    } else if d == 6 {
        '6'
    } else if d == 7 {
        '7'
    } else if d == 8 {
        '8'
    } else if d == 9 {
        '9'
    } else if d == 10 {
        'a'
    } else if d == 11 {
        'b'
    } else if d == 12 {
        'c'
    } else if d == 13 {
        'd'
    } else if d == 14 {
        'e'
    } else {
        'f'
    }
}

/// The hex digits of `v`, most significant first, with no leading zeroes
/// (a single `'0'` for zero itself).
pub open spec fn hex_seq(v: int) -> Seq<char>
    decreases v,
{
    if v < 16 {
        seq![hex_digit(v)]
    } else {
        hex_seq(v / 16).push(hex_digit(v % 16))
    }
}

/// Appends one hex digit character to `s`.
fn push_hex_digit(s: &mut String, d: u64)
    requires
        d < 16,
    ensures
        final(s)@ == old(s)@.push(hex_digit(d as int)),
{
    let ghost pre = old(s)@;
    if d == 0 {
        s.append("0");
        proof { reveal_strlit("0"); }
    } else if d == 1 {
        s.append("1");
        proof { reveal_strlit("1"); }
    } else if d == 2 {
        s.append("2");
        proof { reveal_strlit("2"); }
    } else if d == 3 {
        s.append("3");
        proof { reveal_strlit("3"); }
    } else if d == 4 {
        s.append("4");
        proof { reveal_strlit("4"); }
    } else if d == 5 {
        s.append("5");
        proof { reveal_strlit("5"); }
    } else if d == 6 {
        s.append("6");
        proof { reveal_strlit("6"); }
    } else if d == 7 {
        s.append("7");
        proof { reveal_strlit("7"); }
    } else if d == 8 {
        s.append("8");
        proof { reveal_strlit("8"); }
    } else if d == 9 {
        s.append("9");
        proof { reveal_strlit("9"); }
    } else if d == 10 {
        s.append("a");
        proof { reveal_strlit("a"); }
    } else if d == 11 {
        s.append("b");
        proof { reveal_strlit("b"); }
    } else if d == 12 {
        s.append("c");
        proof { reveal_strlit("c"); }
    } else if d == 13 {
        s.append("d");
        proof { reveal_strlit("d"); }
    } else if d == 14 {
        s.append("e");
        proof { reveal_strlit("e"); }
    } else {
        s.append("f");
        proof { reveal_strlit("f"); }
    }
    proof {
        assert(s@ =~= pre.push(hex_digit(d as int)));
    }
}

/// Appends the hex digits of `v` to `s`, most significant first.
pub fn append_hex(s: &mut String, v: u64)
    ensures
        final(s)@ == old(s)@ + hex_seq(v as int),
    decreases v,
{
    if v >= 16 {
        append_hex(s, v / 16);
        push_hex_digit(s, v % 16);
        proof {
            assert(s@ =~= old(s)@ + hex_seq(v as int));
        }
    } else {
        push_hex_digit(s, v);
        proof {
            assert(s@ =~= old(s)@ + hex_seq(v as int));
        }
    }
}

/// The hex rendering of `v`, as the reports print it: a `0x` prefix and
/// then the digits, most significant first.
pub open spec fn hex_with_prefix(v: int) -> Seq<char> {
    "0x"@ + hex_seq(v)
}

/// Renders `v` as `0x` followed by its hex digits.
pub fn hex_string(v: u64) -> (s: String)
    ensures
        s@ == hex_with_prefix(v as int),
{
    let mut s = String::new();
    s.append("0x");
    append_hex(&mut s, v);
    proof {
        assert(s@ =~= hex_with_prefix(v as int));
    }
    s
}

} // verus!
