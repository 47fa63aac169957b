//! Opcode mnemonics.

use crate::assembler::lexer::{after_run, alpha1, run, run_len, CharClass};
use crate::assembler::parsing::error::{token_outcome, ParseFailure, Parsed};
use crate::assembler::token::{Token, TokenView};
use crate::instruction::{mnemonic_opcode, Opcode};
use vstd::prelude::*;

verus! {

/// An opcode is a word of letters. A word that names no operation is read
/// as `IGL`, not refused.
pub open spec fn opcode_spec(s: Seq<char>) -> Parsed<TokenView> {
    if run_len(s, CharClass::Alpha) == 0 {
        Err(ParseFailure::NoMatch)
    } else {
        Ok(
            (
                after_run(s, CharClass::Alpha),
                TokenView::Op { code: mnemonic_opcode(run(s, CharClass::Alpha)) },
            ),
        )
    }
}

/// Reads an opcode.
pub fn opcode<'a>(input: &'a str) -> (r: Result<(&'a str, Token), ParseFailure>)
    ensures
        token_outcome(r) == opcode_spec(input@),
{
    match alpha1(input) {
        Some((rest, op)) => Ok((rest, Token::Op { code: Opcode::from(op) })),
        None => Err(ParseFailure::NoMatch),
    }
}

} // verus!
