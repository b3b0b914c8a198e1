//! Numbers written out as text: plain decimals, and the `MM:SS` form in
//! which a track's length is shown.

use vstd::prelude::*;
use vstd::string::StringExecFns;

verus! {

/// The character that writes the digit `d`.
pub open spec fn digit_char(d: nat) -> char
    recommends
        d < 10,
{
    if d == 0 {
        '0'
    } else if d == 1 {
        '1'
    } else if d == 2 {
        '2'
    } else if d == 3 {
        '3'
    } else if d == 4 {
        '4'
    } else if d == 5 {
        '5'
    } else if d == 6 {
        '6'
    } else if d == 7 {
        '7'
    } else if d == 8 {
        '8'
    } else {
        '9'
    }
}

/// `n` in decimal, without leading zeros.
pub open spec fn decimal_text(n: nat) -> Seq<char>
    decreases n,
{
    if n < 10 {
        seq![digit_char(n)]
    } else {
        decimal_text(n / 10).push(digit_char(n % 10))
    }
}

/// `n` in decimal, with a leading zero where it has one digit only.
pub open spec fn padded_text(n: nat) -> Seq<char> {
    if n < 10 {
        seq!['0', digit_char(n)]
    } else {
        decimal_text(n)
    }
}

/// `seconds` as minutes and seconds, `MM:SS`.
pub open spec fn clock_text(seconds: nat) -> Seq<char> {
    padded_text(seconds / 60) + seq![':'] + padded_text(seconds % 60)
}

/// The digit `d` as text.
fn digit_str(d: u64) -> (text: &'static str)
    requires
        d < 10,
    ensures
        text@ == seq![digit_char(d as nat)],
{
    proof {
        reveal_strlit("0");
        reveal_strlit("1");
        reveal_strlit("2");
        reveal_strlit("3");
        reveal_strlit("4");
        reveal_strlit("5");
        reveal_strlit("6");
        reveal_strlit("7");
        reveal_strlit("8");
        reveal_strlit("9");
    }
    let text = if d == 0 {
        "0"
    } else if d == 1 {
        "1"
    } else if d == 2 {
        "2"
    } else if d == 3 {
        "3"
    } else if d == 4 {
        "4"
    } else if d == 5 {
        "5"
    } else if d == 6 {
        "6"
    } else if d == 7 {
        "7"
    } else if d == 8 {
        "8"
    } else {
        "9"
    };
    assert(text@ =~= seq![digit_char(d as nat)]);
    text
}

/// Writes `n` in decimal.
pub fn write_decimal(n: u64) -> (text: String)
    ensures
        text@ == decimal_text(n as nat),
    decreases n,
{
    if n < 10 {
        String::from_str(digit_str(n))
    } else {
        let mut text = write_decimal(n / 10);
        text.append(digit_str(n % 10));
        assert(text@ =~= decimal_text(n as nat));
        text
    }
}

/// Writes `n` in decimal, in two digits at least.
pub fn write_padded(n: u64) -> (text: String)
    ensures
        text@ == padded_text(n as nat),
{
    if n < 10 {
        let mut text = String::from_str(digit_str(0));
        text.append(digit_str(n));
        assert(text@ =~= padded_text(n as nat));
        text
    } else {
        write_decimal(n)
    }
}

/// Writes `seconds` as minutes and seconds, `MM:SS`.
pub fn write_clock(seconds: u64) -> (text: String)
    ensures
        text@ == clock_text(seconds as nat),
{
    proof {
        reveal_strlit(":");
    }
    let mut text = write_padded(seconds / 60);
    text.append(":");
    let tail = write_padded(seconds % 60);
    text.append(tail.as_str());
    assert(text@ =~= clock_text(seconds as nat));
    text
}

} // verus!
