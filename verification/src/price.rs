//! Price display: an amount of minor currency units rendered as a decimal
//! amount of the display unit with two fraction digits, and the currency.

use vstd::prelude::*;
use vstd::string::StringExecFns;

verus! {

/// The digit character for a value below ten.
pub open spec fn digit_char(d: int) -> char {
    if d == 0 {
        '0'
    } else if d == 1 {
        '1'
    } else if d == 2 {
        '2'
    } else if d == 3 {
        '3'
    } else if d == 4 {
        '4'
    } else if d == 5 {
        '5'
    } else if d == 6 {
        '6'
    } else if d == 7 {
        '7'
    } else if d == 8 {
        '8'
    } else {
        '9'
    }
}

/// The decimal numeral of `n`, most significant digit first, without
/// leading zeros (a lone zero for zero).
pub open spec fn dec_digits(n: nat) -> Seq<char>
    decreases n,
{
    if n < 10 {
        seq![digit_char(n as int)]
    } else {
        dec_digits(n / 10).push(digit_char((n % 10) as int))
    }
}

/// How an amount of minor units reads: the whole part, a point, exactly
/// two fraction digits, and the currency.
pub open spec fn price_text(minor: nat) -> Seq<char> {
    dec_digits(minor / 100) + seq![
        '.',
        digit_char(((minor % 100) / 10) as int),
        digit_char((minor % 10) as int),
        ' ',
        'k',
        'r',
    ]
}

/// The one-character string for a digit.
fn digit_str(d: u64) -> (s: &'static str)
    requires
        d < 10,
    ensures
        s@ == seq![digit_char(d as int)],
{
    let s = if d == 0 {
        "0"
    } else if d == 1 {
        "1"
    } else if d == 2 {
        "2"
    } else if d == 3 {
        "3"
    } else if d == 4 {
        "4"
    } else if d == 5 {
        "5"
    } else if d == 6 {
        "6"
    } else if d == 7 {
        "7"
    } else if d == 8 {
        "8"
    } else {
        "9"
    };
    proof {
        reveal_strlit("0");
        reveal_strlit("1");
        reveal_strlit("2");
        reveal_strlit("3");
        reveal_strlit("4");
        reveal_strlit("5");
        reveal_strlit("6");
        reveal_strlit("7");
        reveal_strlit("8");
        reveal_strlit("9");
        assert(s@ =~= seq![digit_char(d as int)]);
    }
    s
}

/// The decimal numeral of `n`.
fn format_number(n: u64) -> (s: String)
    ensures
        s@ == dec_digits(n as nat),
    decreases n,
{
    if n < 10 {
        String::from_str(digit_str(n))
    } else {
        let mut s = format_number(n / 10);
        s.append(digit_str(n % 10));
        proof {
            assert(s@ =~= dec_digits(n as nat));
        }
        s
    }
}

/// Renders a price held in minor units the way the UI shows every amount:
/// the whole part, a point, exactly two fraction digits, and the currency.
pub fn format_price(minor: u64) -> (s: String)
    ensures
        s@ == price_text(minor as nat),
{
    let mut s = format_number(minor / 100);
    s.append(".");
    s.append(digit_str((minor % 100) / 10));
    s.append(digit_str(minor % 10));
    s.append(" kr");
    proof {
        reveal_strlit(".");
        reveal_strlit(" kr");
        assert(s@ =~= price_text(minor as nat));
    }
    s
}

} // verus!
