//! Comments: from `;` to the end of the line.

use crate::assembler::lexer::{
    after_run, after_tag, from_first, multispace0, space0, tag, take_until, CharClass,
};
use crate::assembler::parsing::error::{token_outcome, ParseFailure, Parsed};
use crate::assembler::token::{Token, TokenView};
use vstd::prelude::*;

verus! {

/// A comment is a `;`, which blanks and tabs may precede, and the text up
/// to the end of the line, which must be there. The white space that
/// follows the comment is read with it, line endings included.
pub open spec fn comment_spec(s: Seq<char>) -> Parsed<TokenView> {
    match after_tag(seq![';'], after_run(s, CharClass::Space)) {
        Some(text) => match from_first('\n', text) {
            Some(end) => Ok((after_run(end, CharClass::Multispace), TokenView::Comment)),
            None => Err(ParseFailure::NoMatch),
        },
        None => Err(ParseFailure::NoMatch),
    }
}

/// Reads a comment.
pub fn comment<'a>(input: &'a str) -> (r: Result<(&'a str, Token), ParseFailure>)
    ensures
        token_outcome(r) == comment_spec(input@),
{
    proof {
        reveal_strlit(";");
        assert(";"@ =~= seq![';']);
        reveal_strlit("\n");
    }
    let start = match space0(input) {
        Some(rest) => rest,
        None => {
            return Err(ParseFailure::NoMatch);
        },
    };
    let text = match tag(";", start) {
        Some(rest) => rest,
        None => {
            return Err(ParseFailure::NoMatch);
        },
    };
    let end = match take_until("\n", text) {
        Some(rest) => rest,
        None => {
            return Err(ParseFailure::NoMatch);
        },
    };
    match multispace0(end) {
        Some(rest) => Ok((rest, Token::Comment)),
        None => Err(ParseFailure::NoMatch),
    }
}

} // verus!
