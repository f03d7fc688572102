//! Upper-case hexadecimal numerals.

use vstd::prelude::*;
use vstd::string::*;

verus! {

/// The sixteen hexadecimal digits, in order.
pub open spec fn hex_digits() -> Seq<char> {
    seq!['0', '1', '2', '3', '4', '5', '6', '7', '8', '9', 'A', 'B', 'C', 'D', 'E', 'F']
}

/// The numeral of `v` in base sixteen with upper-case digits, filled with
/// zeros on the left up to `width` digits. A value that needs more digits
/// gets them.
pub open spec fn upper_hex(v: nat, width: nat) -> Seq<char>
    decreases v + width,
{
    if v < 16 && width <= 1 {
        seq![hex_digits()[v as int]]
    } else {
        upper_hex(
            v / 16,
            if width > 0 {
                (width - 1) as nat
            } else {
                0
            },
        ).push(hex_digits()[(v % 16) as int])
    }
}

/// The text of one hexadecimal digit.
pub fn digit_text(d: u8) -> (text: &'static str)
    requires
        d < 16,
    ensures
        text@ == seq![hex_digits()[d as int]],
{
    proof {
        reveal_strlit("0");
        reveal_strlit("1");
        reveal_strlit("2");
        reveal_strlit("3");
        reveal_strlit("4");
        reveal_strlit("5");
        reveal_strlit("6");
        reveal_strlit("7");
        reveal_strlit("8");
        reveal_strlit("9");
        reveal_strlit("A");
        reveal_strlit("B");
        reveal_strlit("C");
        reveal_strlit("D");
        reveal_strlit("E");
        reveal_strlit("F");
    }
    let text = match d {
        0 => "0",
        1 => "1",
        2 => "2",
        3 => "3",
        4 => "4",
        5 => "5",
        6 => "6",
        7 => "7",
        8 => "8",
        9 => "9",
        10 => "A",
        11 => "B",
        12 => "C",
        13 => "D",
        14 => "E",
        _ => "F",
    };
    assert(text@ =~= seq![hex_digits()[d as int]]);
    text
}

/// Appends the numeral of `v`, of at least `width` digits, to `out`.
pub fn push_hex(out: &mut String, v: u128, width: usize)
    ensures
        final(out)@ == old(out)@ + upper_hex(v as nat, width as nat),
    decreases v + width,
{
    if v >= 16 || width > 1 {
        let rest: usize = if width > 0 {
            width - 1
        } else {
            0
        };
        push_hex(out, v / 16, rest);
    }
    out.append(digit_text((v % 16) as u8));
    assert(out@ =~= old(out)@ + upper_hex(v as nat, width as nat));
}

} // verus!
