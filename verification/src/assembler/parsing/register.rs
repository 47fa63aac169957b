//! Register operands: `$` and the register's number.

use crate::assembler::lexer::{after_run, after_tag, digit1, run, run_len, tag, CharClass};
use crate::assembler::parsing::decimal::{decimal, decimal_value, lemma_run_all_digits};
use crate::assembler::parsing::error::{token_outcome, ParseFailure, Parsed};
use crate::assembler::token::{Token, TokenView};
use vstd::prelude::*;

verus! {

/// A register operand is a `$` followed by decimal digits; the number must
/// fit a byte.
pub open spec fn register_spec(s: Seq<char>) -> Parsed<TokenView> {
    match after_tag(seq!['$'], s) {
        Some(digits) => {
            if run_len(digits, CharClass::Digit) == 0 {
                Err(ParseFailure::NoMatch)
            } else if decimal_value(run(digits, CharClass::Digit)) > u8::MAX {
                Err(ParseFailure::OutOfRange)
            } else {
                Ok(
                    (
                        after_run(digits, CharClass::Digit),
                        TokenView::Register {
                            reg_num: decimal_value(run(digits, CharClass::Digit)) as u8,
                        },
                    ),
                )
            }
        },
        None => Err(ParseFailure::NoMatch),
    }
}

/// Reads a register operand.
pub fn register<'a>(input: &'a str) -> (r: Result<(&'a str, Token), ParseFailure>)
    ensures
        token_outcome(r) == register_spec(input@),
{
    proof {
        reveal_strlit("$");
        assert("$"@ =~= seq!['$']);
    }
    let digits = match tag("$", input) {
        Some(rest) => rest,
        None => {
            return Err(ParseFailure::NoMatch);
        },
    };
    let (rest, reg_num) = match digit1(digits) {
        Some(found) => found,
        None => {
            return Err(ParseFailure::NoMatch);
        },
    };
    proof {
        lemma_run_all_digits(digits@);
    }
    match decimal(reg_num, 255) {
        Some(value) => Ok((rest, Token::Register { reg_num: value as u8 })),
        None => Err(ParseFailure::OutOfRange),
    }
}

} // verus!
