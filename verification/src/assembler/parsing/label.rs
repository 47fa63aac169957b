//! Labels: `name:` declares one, `@name` refers to one.

use crate::assembler::lexer::{after_run, after_tag, alphanumeric1, run, run_len, tag, CharClass};
use crate::assembler::parsing::error::{token_outcome, ParseFailure, Parsed};
use crate::assembler::token::{Token, TokenView};
use vstd::prelude::*;

verus! {

/// A label declaration is a name of letters and digits followed by a colon.
pub open spec fn label_decl_spec(s: Seq<char>) -> Parsed<TokenView> {
    if run_len(s, CharClass::Alphanumeric) == 0 {
        Err(ParseFailure::NoMatch)
    } else {
        match after_tag(seq![':'], after_run(s, CharClass::Alphanumeric)) {
            Some(rest) => Ok((rest, TokenView::LabelDecl { name: run(s, CharClass::Alphanumeric) })),
            None => Err(ParseFailure::NoMatch),
        }
    }
}

/// A label usage is an `@` followed by a name of letters and digits.
pub open spec fn label_usage_spec(s: Seq<char>) -> Parsed<TokenView> {
    match after_tag(seq!['@'], s) {
        Some(name) => {
            if run_len(name, CharClass::Alphanumeric) == 0 {
                Err(ParseFailure::NoMatch)
            } else {
                Ok(
                    (
                        after_run(name, CharClass::Alphanumeric),
                        TokenView::LabelUsage { name: run(name, CharClass::Alphanumeric) },
                    ),
                )
            }
        },
        None => Err(ParseFailure::NoMatch),
    }
}

/// Reads a label declaration.
pub fn label_decl<'a>(input: &'a str) -> (r: Result<(&'a str, Token), ParseFailure>)
    ensures
        token_outcome(r) == label_decl_spec(input@),
{
    proof {
        reveal_strlit(":");
        assert(":"@ =~= seq![':']);
    }
    let (after_name, name) = match alphanumeric1(input) {
        Some(found) => found,
        None => {
            return Err(ParseFailure::NoMatch);
        },
    };
    match tag(":", after_name) {
        Some(rest) => Ok((rest, Token::LabelDecl { name: name.to_owned() })),
        None => Err(ParseFailure::NoMatch),
    }
}

/// Reads a label usage.
pub fn label_usage<'a>(input: &'a str) -> (r: Result<(&'a str, Token), ParseFailure>)
    ensures
        token_outcome(r) == label_usage_spec(input@),
{
    proof {
        reveal_strlit("@");
        assert("@"@ =~= seq!['@']);
    }
    let after_sign = match tag("@", input) {
        Some(rest) => rest,
        None => {
            return Err(ParseFailure::NoMatch);
        },
    };
    match alphanumeric1(after_sign) {
        Some((rest, name)) => Ok((rest, Token::LabelUsage { name: name.to_owned() })),
        None => Err(ParseFailure::NoMatch),
    }
}

} // verus!
