//! Directives: `.name`.

use crate::assembler::lexer::{after_run, after_tag, alpha1, run, run_len, tag, CharClass};
use crate::assembler::parsing::error::{token_outcome, ParseFailure, Parsed};
use crate::assembler::token::{Token, TokenView};
use vstd::prelude::*;

verus! {

/// A directive is a dot followed by a name of letters.
pub open spec fn directive_spec(s: Seq<char>) -> Parsed<TokenView> {
    match after_tag(seq!['.'], s) {
        Some(name) => {
            if run_len(name, CharClass::Alpha) == 0 {
                Err(ParseFailure::NoMatch)
            } else {
                Ok(
                    (
                        after_run(name, CharClass::Alpha),
                        TokenView::Directive { name: run(name, CharClass::Alpha) },
                    ),
                )
            }
        },
        None => Err(ParseFailure::NoMatch),
    }
}

/// Reads a directive.
pub fn directive<'a>(input: &'a str) -> (r: Result<(&'a str, Token), ParseFailure>)
    ensures
        token_outcome(r) == directive_spec(input@),
{
    proof {
        reveal_strlit(".");
        assert("."@ =~= seq!['.']);
    }
    let after_dot = match tag(".", input) {
        Some(rest) => rest,
        None => {
            return Err(ParseFailure::NoMatch);
        },
    };
    match alpha1(after_dot) {
        Some((rest, name)) => Ok((rest, Token::Directive { name: name.to_owned() })),
        None => Err(ParseFailure::NoMatch),
    }
}

} // verus!
