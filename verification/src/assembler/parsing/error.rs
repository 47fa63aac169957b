//! How reading assembly text can fail, and how rules are combined.

use crate::assembler::token::{Token, TokenView};
use vstd::prelude::*;
use vstd::string::*;

verus! {

/// Why a rule of the grammar did not read the text.
#[derive(Debug, Clone, Copy, PartialEq, Eq, Structural)]
pub enum ParseFailure {
    /// The text is not of the form that the rule reads. A rule that tries
    /// alternatives goes on to the next one.
    NoMatch,
    /// The text is of the right form, but a number in it is too large for
    /// its place. No alternative is tried.
    OutOfRange,
}

/// Why an instruction record cannot be put into bytes.
#[derive(Debug)]
pub enum ParsingError {
    /// The record's opcode is a token that is no opcode.
    OpcodeExpected(Token),
    /// One of the record's operands is a token that cannot be an operand.
    UnexpectedOperand(Token),
    /// A word names no operation. The assembler itself reads such a word as
    /// `IGL` and goes on; this is for a caller that refuses it.
    UnknownOpcode(String),
}

impl Clone for ParsingError {
    fn clone(&self) -> (copy: ParsingError)
        ensures
            copy@ == self@,
    {
        match self {
            ParsingError::OpcodeExpected(token) => ParsingError::OpcodeExpected(token.clone()),
            ParsingError::UnexpectedOperand(token) => ParsingError::UnexpectedOperand(
                token.clone(),
            ),
            ParsingError::UnknownOpcode(word) => ParsingError::UnknownOpcode(word.clone()),
        }
    }
}

impl ParsingError {
    /// What went wrong, in words.
    pub fn to_string(&self) -> (text: String)
        ensures
            text@ == self@.text(),
    {
        match self {
            ParsingError::OpcodeExpected(token) => String::from_str(
                "Non-opcode found in opcode field: ",
            ).concat(token.to_string().as_str()),
            ParsingError::UnexpectedOperand(token) => String::from_str(
                "Unexpected opcode found in operand field: ",
            ).concat(token.to_string().as_str()),
            ParsingError::UnknownOpcode(word) => String::from_str("Unknown opcode: ").concat(
                word.as_str(),
            ),
        }
    }
}

impl ParsingErrorView {
    /// What went wrong, in words.
    pub open spec fn text(self) -> Seq<char> {
        match self {
            ParsingErrorView::OpcodeExpected(token) => "Non-opcode found in opcode field: "@
                + token.text(),
            ParsingErrorView::UnexpectedOperand(token) =>
                "Unexpected opcode found in operand field: "@ + token.text(),
            ParsingErrorView::UnknownOpcode(word) => "Unknown opcode: "@ + word,
        }
    }
}

/// [`ParsingError`] as a mathematical value.
pub enum ParsingErrorView {
    OpcodeExpected(TokenView),
    UnexpectedOperand(TokenView),
    UnknownOpcode(Seq<char>),
}

impl View for ParsingError {
    type V = ParsingErrorView;

    open spec fn view(&self) -> ParsingErrorView {
        match self {
            ParsingError::OpcodeExpected(token) => ParsingErrorView::OpcodeExpected(token@),
            ParsingError::UnexpectedOperand(token) => ParsingErrorView::UnexpectedOperand(token@),
            ParsingError::UnknownOpcode(word) => ParsingErrorView::UnknownOpcode(word@),
        }
    }
}

/// What a rule of the grammar makes of a text: what follows the part that
/// it has read, and the value that it has read.
pub type Parsed<T> = Result<(Seq<char>, T), ParseFailure>;

/// The first rule's result, or the second's where the first does not match.
pub open spec fn or_else<T>(first: Parsed<T>, second: Parsed<T>) -> Parsed<T> {
    match first {
        Err(ParseFailure::NoMatch) => second,
        _ => first,
    }
}

/// A rule made optional: where it does not match the text `s`, nothing is
/// read.
pub open spec fn optional<T>(s: Seq<char>, rule: Parsed<T>) -> Parsed<Option<T>> {
    match rule {
        Ok((rest, value)) => Ok((rest, Some(value))),
        Err(ParseFailure::NoMatch) => Ok((s, None)),
        Err(failure) => Err(failure),
    }
}

/// What a rule that reads a token has returned, as a mathematical value.
pub open spec fn token_outcome(r: Result<(&str, Token), ParseFailure>) -> Parsed<TokenView> {
    match r {
        Ok((rest, token)) => Ok((rest@, token@)),
        Err(failure) => Err(failure),
    }
}

} // verus!
