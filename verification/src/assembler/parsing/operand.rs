//! Operands: numbers, registers and label usages.

use crate::assembler::lexer::{after_run, after_tag, digit1, run, run_len, tag, CharClass};
use crate::assembler::parsing::decimal::{decimal, decimal_value, lemma_run_all_digits};
use crate::assembler::parsing::error::{or_else, token_outcome, ParseFailure, Parsed};
use crate::assembler::parsing::label::{label_usage, label_usage_spec};
use crate::assembler::parsing::register::{register, register_spec};
use crate::assembler::token::{Token, TokenView};
use vstd::prelude::*;

verus! {

/// The digits of a number behind its `#`: what follows the sign, if there
/// is one.
pub open spec fn unsigned_part(signed: Seq<char>) -> Seq<char> {
    match after_tag(seq!['-'], signed) {
        Some(digits) => digits,
        None => match after_tag(seq!['+'], signed) {
            Some(digits) => digits,
            None => signed,
        },
    }
}

/// A number is a `#`, an optional sign and decimal digits; its value must
/// fit 32 bits with a sign.
pub open spec fn number_spec(s: Seq<char>) -> Parsed<TokenView> {
    match after_tag(seq!['#'], s) {
        Some(signed) => {
            let digits = unsigned_part(signed);
            let magnitude = decimal_value(run(digits, CharClass::Digit)) as int;
            let value = if after_tag(seq!['-'], signed).is_some() {
                -magnitude
            } else {
                magnitude
            };
            if run_len(digits, CharClass::Digit) == 0 {
                Err(ParseFailure::NoMatch)
            } else if value < i32::MIN || value > i32::MAX {
                Err(ParseFailure::OutOfRange)
            } else {
                Ok(
                    (
                        after_run(digits, CharClass::Digit),
                        TokenView::Number { value: value as i32 },
                    ),
                )
            }
        },
        None => Err(ParseFailure::NoMatch),
    }
}

/// An operand is a number, a register or a label usage.
pub open spec fn operand_spec(s: Seq<char>) -> Parsed<TokenView> {
    or_else(number_spec(s), or_else(register_spec(s), label_usage_spec(s)))
}

/// Reads a number.
pub fn number<'a>(input: &'a str) -> (r: Result<(&'a str, Token), ParseFailure>)
    ensures
        token_outcome(r) == number_spec(input@),
{
    proof {
        reveal_strlit("#");
        assert("#"@ =~= seq!['#']);
        reveal_strlit("-");
        assert("-"@ =~= seq!['-']);
        reveal_strlit("+");
        assert("+"@ =~= seq!['+']);
    }
    let signed = match tag("#", input) {
        Some(rest) => rest,
        None => {
            return Err(ParseFailure::NoMatch);
        },
    };
    let (negative, digits) = match tag("-", signed) {
        Some(rest) => (true, rest),
        None => match tag("+", signed) {
            Some(rest) => (false, rest),
            None => (false, signed),
        },
    };
    let (rest, int_num) = match digit1(digits) {
        Some(found) => found,
        None => {
            return Err(ParseFailure::NoMatch);
        },
    };
    proof {
        lemma_run_all_digits(digits@);
    }
    if negative {
        match decimal(int_num, 0x8000_0000) {
            Some(magnitude) => Ok((rest, Token::Number { value: (-(magnitude as i64)) as i32 })),
            None => Err(ParseFailure::OutOfRange),
        }
    } else {
        match decimal(int_num, 0x7fff_ffff) {
            Some(magnitude) => Ok((rest, Token::Number { value: magnitude as i32 })),
            None => Err(ParseFailure::OutOfRange),
        }
    }
}

/// Reads an operand.
pub fn operand<'a>(input: &'a str) -> (r: Result<(&'a str, Token), ParseFailure>)
    ensures
        token_outcome(r) == operand_spec(input@),
{
    match number(input) {
        Err(ParseFailure::NoMatch) => match register(input) {
            Err(ParseFailure::NoMatch) => label_usage(input),
            other => other,
        },
        other => other,
    }
}

} // verus!
