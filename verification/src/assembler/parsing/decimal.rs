//! Decimal numerals.

use crate::assembler::lexer::{lemma_run_len, run, CharClass};
use vstd::prelude::*;
use vstd::string::*;

verus! {

/// The number that a sequence of decimal digits stands for.
pub open spec fn decimal_value(digits: Seq<char>) -> nat
    decreases digits.len(),
{
    if digits.len() == 0 {
        0
    } else {
        (decimal_value(digits.drop_last()) * 10 + (digits.last() as u32 - '0' as u32)) as nat
    }
}

/// Whether every character of `s` is a decimal digit.
pub open spec fn all_digits(s: Seq<char>) -> bool {
    forall|i: int| 0 <= i < s.len() ==> CharClass::Digit.holds(#[trigger] s[i])
}

/// The run of digits at the front of a text holds digits only.
pub proof fn lemma_run_all_digits(s: Seq<char>)
    ensures
        all_digits(run(s, CharClass::Digit)),
{
    lemma_run_len(s, CharClass::Digit);
}

/// A numeral stands for at least as much as each of its prefixes.
pub proof fn lemma_decimal_prefix(digits: Seq<char>, n: int)
    requires
        all_digits(digits),
        0 <= n <= digits.len(),
    ensures
        decimal_value(digits.take(n)) <= decimal_value(digits),
    decreases digits.len() - n,
{
    if n < digits.len() {
        let longer = digits.take(n + 1);
        assert(longer.drop_last() =~= digits.take(n));
        assert(CharClass::Digit.holds(digits[n]));
        assert(longer.last() == digits[n]);
        lemma_decimal_prefix(digits, n + 1);
    } else {
        assert(digits.take(n) =~= digits);
    }
}

/// The number that `digits` stands for, unless it is above `limit`.
pub(crate) fn decimal(digits: &str, limit: u32) -> (r: Option<u32>)
    requires
        all_digits(digits@),
    ensures
        r == if decimal_value(digits@) <= limit {
            Some(decimal_value(digits@) as u32)
        } else {
            None
        },
{
    let n = digits.unicode_len();
    let mut value: u64 = 0;
    let mut i: usize = 0;
    assert(digits@.take(0) =~= Seq::<char>::empty());
    while i < n
        invariant
            i <= n,
            n == digits@.len(),
            all_digits(digits@),
            digits.is_ascii(),
            value == decimal_value(digits@.take(i as int)),
            value <= limit,
        decreases n - i,
    {
        let digit: u8 = digits.get_ascii(i) - 48;
        proof {
            let longer = digits@.take(i + 1);
            assert(longer.drop_last() =~= digits@.take(i as int));
            assert(longer.last() == digits@[i as int]);
            assert(CharClass::Digit.holds(digits@[i as int]));
        }
        value = value * 10 + digit as u64;
        i += 1;
        if value > limit as u64 {
            proof {
                lemma_decimal_prefix(digits@, i as int);
            }
            return None;
        }
    }
    assert(digits@.take(n as int) =~= digits@);
    Some(value as u32)
}

/// The character that stands for a digit.
pub open spec fn digit_char(d: nat) -> char
    recommends
        d < 10,
{
    ((48 + d) as u8) as char
}

/// The decimal numeral of a number, without leading zeros.
pub open spec fn decimal_digits(n: nat) -> Seq<char>
    decreases n,
{
    if n < 10 {
        seq![digit_char(n)]
    } else {
        decimal_digits(n / 10).push(digit_char(n % 10))
    }
}

/// The numeral of a number holds digits only and stands for that number.
pub proof fn lemma_decimal_round_trip(n: nat)
    ensures
        all_digits(decimal_digits(n)),
        decimal_value(decimal_digits(n)) == n,
    decreases n,
{
    let digits = decimal_digits(n);
    if n < 10 {
        assert(digits.drop_last() =~= Seq::<char>::empty());
        assert(decimal_value(digits.drop_last()) == 0);
    } else {
        lemma_decimal_round_trip(n / 10);
        assert(digits.drop_last() =~= decimal_digits(n / 10));
        assert(digits.last() == digit_char(n % 10));
    }
}

/// The text of one digit.
fn digit_text(d: u32) -> (text: &'static str)
    requires
        d < 10,
    ensures
        text@ == seq![digit_char(d as nat)],
{
    proof {
        reveal_strlit("0");
        reveal_strlit("1");
        reveal_strlit("2");
        reveal_strlit("3");
        reveal_strlit("4");
        reveal_strlit("5");
        reveal_strlit("6");
        reveal_strlit("7");
        reveal_strlit("8");
        reveal_strlit("9");
    }
    let text = match d {
        0 => "0",
        1 => "1",
        2 => "2",
        3 => "3",
        4 => "4",
        5 => "5",
        6 => "6",
        7 => "7",
        8 => "8",
        _ => "9",
    };
    assert(text@ =~= seq![digit_char(d as nat)]);
    text
}

/// The decimal numeral of `n`.
pub fn decimal_text(n: u32) -> (text: String)
    ensures
        text@ == decimal_digits(n as nat),
    decreases n,
{
    let last = digit_text(n % 10);
    if n < 10 {
        String::from_str(last)
    } else {
        let text = decimal_text(n / 10).concat(last);
        assert(text@ =~= decimal_digits(n as nat));
        text
    }
}

} // verus!
