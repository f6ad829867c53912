//! Interpretation of the quantity input box: the UI lets the user type a
//! quantity as text, and a value that does not read as a quantity falls
//! back to one.

use vstd::prelude::*;
use vstd::string::StrSliceExecFns;

verus! {

/// Whether `c` is a decimal digit.
pub open spec fn is_dec_digit(c: char) -> bool {
    48 <= (c as u32) && (c as u32) <= 57
}

/// The numeric value of the digit `c`.
pub open spec fn digit_val(c: char) -> int {
    (c as u32) - 48
}

/// Whether every character of `s` is a decimal digit.
pub open spec fn all_dec_digits(s: Seq<char>) -> bool {
    forall|i: int| 0 <= i < s.len() ==> is_dec_digit(#[trigger] s[i])
}

/// The value of `s` read as a decimal numeral.
pub open spec fn dec_value(s: Seq<char>) -> int
    decreases s.len(),
{
    if s.len() == 0 {
        0
    } else {
        dec_value(s.drop_last()) * 10 + digit_val(s.last())
    }
}

/// A digit string's value is never negative.
proof fn lemma_dec_value_nonneg(s: Seq<char>)
    requires
        all_dec_digits(s),
    ensures
        dec_value(s) >= 0,
    decreases s.len(),
{
    if s.len() > 0 {
        assert(forall|i: int| 0 <= i < s.drop_last().len() ==> #[trigger] s.drop_last()[i]
            == s[i]);
        lemma_dec_value_nonneg(s.drop_last());
    }
}

/// Reading one more digit multiplies the prefix value by ten and adds it.
proof fn lemma_dec_value_take_step(s: Seq<char>, i: int)
    requires
        0 <= i < s.len(),
    ensures
        dec_value(s.take(i + 1)) == dec_value(s.take(i)) * 10 + digit_val(s[i]),
{
    assert(s.take(i + 1).drop_last() =~= s.take(i));
    assert(s.take(i + 1).last() == s[i]);
}

/// A prefix of a digit string never reads as more than the whole string.
proof fn lemma_dec_value_prefix(s: Seq<char>, i: int)
    requires
        all_dec_digits(s),
        0 <= i <= s.len(),
    ensures
        dec_value(s.take(i)) <= dec_value(s),
    decreases s.len(),
{
    if i == s.len() {
        assert(s.take(i) =~= s);
    } else {
        assert(forall|j: int| 0 <= j < s.drop_last().len() ==> #[trigger] s.drop_last()[j]
            == s[j]);
        lemma_dec_value_nonneg(s.drop_last());
        lemma_dec_value_prefix(s.drop_last(), i);
        assert(s.drop_last().take(i) =~= s.take(i));
    }
}

/// Reads the text of the quantity input box: a non-empty string of decimal
/// digits whose value fits the quantity type gives that value; anything
/// else falls back to a quantity of one.
pub fn parse_quantity_input(s: &str) -> (q: u32)
    ensures
        q == (if s@.len() > 0 && all_dec_digits(s@) && dec_value(s@) <= u32::MAX {
            dec_value(s@)
        } else {
            1
        }),
{
    let n = s.unicode_len();
    if n == 0 {
        return 1;
    }
    let mut acc: u64 = 0;
    let mut i: usize = 0;
    while i < n
        invariant
            n == s@.len(),
            0 < n,
            i <= n,
            all_dec_digits(s@.take(i as int)),
            acc == dec_value(s@.take(i as int)),
            acc <= u32::MAX,
        decreases n - i,
    {
        let c = s.get_char(i);
        let cv = c as u32;
        if cv < 48 || cv > 57 {
            proof {
                assert(!is_dec_digit(s@[i as int]));
            }
            return 1;
        }
        let d = (cv - 48) as u64;
        proof {
            lemma_dec_value_take_step(s@, i as int);
        }
        let next = acc * 10 + d;
        if next > u32::MAX as u64 {
            proof {
                if all_dec_digits(s@) {
                    lemma_dec_value_prefix(s@, i as int + 1);
                }
            }
            return 1;
        }
        acc = next;
        i = i + 1;
        proof {
            assert forall|j: int| 0 <= j < i implies is_dec_digit(#[trigger] s@.take(
                i as int,
            )[j]) by {
                if j < i - 1 {
                    assert(s@.take(i as int)[j] == s@.take(i as int - 1)[j]);
                }
            }
        }
    }
    proof {
        assert(s@.take(n as int) =~= s@);
    }
    acc as u32
}

} // verus!
