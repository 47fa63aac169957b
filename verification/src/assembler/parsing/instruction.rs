//! Instruction records: one line of assembly, and its bytes.

use crate::assembler::lexer::{after_run, multispace0, run_len, space1, CharClass};
use crate::assembler::parsing::comment::{comment, comment_spec};
use crate::assembler::parsing::error::{
    optional, ParseFailure, Parsed, ParsingError, ParsingErrorView,
};
use crate::assembler::parsing::label::{label_decl, label_decl_spec};
use crate::assembler::parsing::opcode::{opcode, opcode_spec};
use crate::assembler::parsing::operand::{operand, operand_spec};
use crate::assembler::token::{clone_slot, view_of, Token, TokenError, TokenView};
use crate::instruction::encode;
use vstd::prelude::*;

verus! {

/// One parsed line of assembly.
#[derive(Debug, PartialEq)]
pub struct Instruction {
    pub opcode: Token,
    pub label: Option<Token>,
    pub directive: Option<Token>,
    pub operand1: Option<Token>,
    pub operand2: Option<Token>,
    pub operand3: Option<Token>,
}

/// An instruction record as a mathematical value.
pub struct InstructionView {
    pub opcode: TokenView,
    pub label: Option<TokenView>,
    pub directive: Option<TokenView>,
    pub operand1: Option<TokenView>,
    pub operand2: Option<TokenView>,
    pub operand3: Option<TokenView>,
}

impl View for Instruction {
    type V = InstructionView;

    open spec fn view(&self) -> InstructionView {
        InstructionView {
            opcode: self.opcode@,
            label: view_of(self.label),
            directive: view_of(self.directive),
            operand1: view_of(self.operand1),
            operand2: view_of(self.operand2),
            operand3: view_of(self.operand3),
        }
    }
}

impl Clone for Instruction {
    fn clone(&self) -> (copy: Instruction)
        ensures
            copy@ == self@,
    {
        Instruction {
            opcode: self.opcode.clone(),
            label: clone_slot(&self.label),
            directive: clone_slot(&self.directive),
            operand1: clone_slot(&self.operand1),
            operand2: clone_slot(&self.operand2),
            operand3: clone_slot(&self.operand3),
        }
    }
}

/// The bytes of an operand that may be absent: none for an absent one.
/// `Err` holds the operand where it cannot be put into bytes.
pub open spec fn slot_bytes(slot: Option<TokenView>) -> Result<Seq<u8>, TokenView> {
    match slot {
        None => Ok(Seq::empty()),
        Some(token) => match token.operand_bytes() {
            Some(bytes) => Ok(bytes),
            None => Err(token),
        },
    }
}

impl InstructionView {
    /// The byte of the record's opcode, if its opcode is one.
    pub open spec fn opcode_byte(self) -> Option<u8> {
        match self.opcode {
            TokenView::Op { code } => Some(encode(code)),
            _ => None,
        }
    }

    /// The bytes of the operands that are present, in their order. `Err`
    /// holds the first operand that cannot be put into bytes.
    pub open spec fn operand_bytes(self) -> Result<Seq<u8>, TokenView> {
        match slot_bytes(self.operand1) {
            Err(token) => Err(token),
            Ok(first) => match slot_bytes(self.operand2) {
                Err(token) => Err(token),
                Ok(second) => match slot_bytes(self.operand3) {
                    Err(token) => Err(token),
                    Ok(third) => Ok(first + second + third),
                },
            },
        }
    }

    /// The record in bytes: the opcode's byte, then the operands' bytes. The
    /// opcode is looked at first, then the operands in their order.
    pub open spec fn to_bytes(self) -> Result<Seq<u8>, ParsingErrorView> {
        match self.opcode_byte() {
            None => Err(ParsingErrorView::OpcodeExpected(self.opcode)),
            Some(byte) => match self.operand_bytes() {
                Err(token) => Err(ParsingErrorView::UnexpectedOperand(token)),
                Ok(bytes) => Ok(seq![byte] + bytes),
            },
        }
    }
}

/// Appends the bytes of an operand that may be absent.
fn push_slot(bytes: &mut Vec<u8>, slot: &Option<Token>) -> (r: Result<(), TokenError>)
    ensures
        match r {
            Ok(()) => slot_bytes(view_of(*slot)).is_ok() && final(bytes)@ == old(bytes)@
                + slot_bytes(view_of(*slot))->Ok_0,
            Err(e) => slot_bytes(view_of(*slot)) == Err::<Seq<u8>, _>(e.token()@),
        },
{
    match slot {
        Some(token) => {
            let mut operand = token.operand_bytes()?;
            bytes.append(&mut operand);
            Ok(())
        },
        None => {
            assert(bytes@ + Seq::<u8>::empty() =~= bytes@);
            Ok(())
        },
    }
}

impl Instruction {
    /// The record in bytes: the opcode's byte, then the operands' bytes.
    pub fn to_bytes(&self) -> (r: Result<Vec<u8>, ParsingError>)
        ensures
            match r {
                Ok(bytes) => self@.to_bytes() == Ok::<_, ParsingErrorView>(bytes@),
                Err(e) => self@.to_bytes() == Err::<Seq<u8>, _>(e@),
            },
    {
        let mut bytes = Vec::new();
        let byte = match self.opcode_bytes() {
            Some(byte) => byte,
            None => {
                return Err(ParsingError::OpcodeExpected(self.opcode.clone()));
            },
        };
        let mut operands = match self.operand_bytes() {
            Ok(operands) => operands,
            Err(TokenError::UnexpectedOpcode(token)) => {
                return Err(ParsingError::UnexpectedOperand(token));
            },
        };
        bytes.push(byte);
        bytes.append(&mut operands);
        assert(bytes@ =~= seq![byte] + self@.operand_bytes()->Ok_0);
        Ok(bytes)
    }

    /// The byte of the record's opcode, if its opcode is one.
    pub fn opcode_bytes(&self) -> (r: Option<u8>)
        ensures
            r == self@.opcode_byte(),
    {
        if let Token::Op { code } = &self.opcode {
            Some(u8::from(*code))
        } else {
            None
        }
    }

    /// The bytes of the operands that are present, in their order, or the
    /// first operand that cannot be put into bytes.
    pub fn operand_bytes(&self) -> (r: Result<Vec<u8>, TokenError>)
        ensures
            match r {
                Ok(bytes) => self@.operand_bytes() == Ok::<_, TokenView>(bytes@),
                Err(e) => self@.operand_bytes() == Err::<Seq<u8>, _>(e.token()@),
            },
    {
        let mut bytes = Vec::new();
        push_slot(&mut bytes, &self.operand1)?;
        push_slot(&mut bytes, &self.operand2)?;
        push_slot(&mut bytes, &self.operand3)?;
        assert(bytes@ =~= slot_bytes(view_of(self.operand1))->Ok_0 + slot_bytes(
            view_of(self.operand2),
        )->Ok_0 + slot_bytes(view_of(self.operand3))->Ok_0);
        Ok(bytes)
    }
}

/// An operand behind the blanks or tabs that part it from what stands
/// before it.
pub open spec fn spaced_operand_spec(s: Seq<char>) -> Parsed<TokenView> {
    if run_len(s, CharClass::Space) == 0 {
        Err(ParseFailure::NoMatch)
    } else {
        operand_spec(after_run(s, CharClass::Space))
    }
}

/// The text behind the comment at the front of `s`, or `s` where none
/// stands there.
pub open spec fn after_comment(s: Seq<char>) -> Seq<char> {
    match comment_spec(s) {
        Ok((rest, _)) => rest,
        Err(_) => s,
    }
}

/// What follows the opcode: up to three operands, a comment, white space.
pub open spec fn operands_spec(
    s: Seq<char>,
    label: Option<TokenView>,
    opcode: TokenView,
) -> Parsed<InstructionView> {
    match optional(s, spaced_operand_spec(s)) {
        Err(failure) => Err(failure),
        Ok((s1, operand1)) => match optional(s1, spaced_operand_spec(s1)) {
            Err(failure) => Err(failure),
            Ok((s2, operand2)) => match optional(s2, spaced_operand_spec(s2)) {
                Err(failure) => Err(failure),
                Ok((s3, operand3)) => Ok(
                    (
                        after_run(after_comment(s3), CharClass::Multispace),
                        InstructionView {
                            opcode,
                            label,
                            directive: None,
                            operand1,
                            operand2,
                            operand3,
                        },
                    ),
                ),
            },
        },
    }
}

/// An instruction is, behind white space and a comment that may precede
/// it: a label declaration, which may be absent; an opcode; up to three
/// operands, each behind blanks or tabs. A comment and white space that
/// follow are read with it.
pub open spec fn instruction_spec(s: Seq<char>) -> Parsed<InstructionView> {
    let start = after_comment(after_run(s, CharClass::Multispace));
    match optional(start, label_decl_spec(start)) {
        Err(failure) => Err(failure),
        Ok((named, label)) => match opcode_spec(named) {
            Err(failure) => Err(failure),
            Ok((rest, opcode)) => operands_spec(rest, label, opcode),
        },
    }
}

/// What the rule for instructions has returned, as a mathematical value.
pub open spec fn instruction_outcome(
    r: Result<(&str, Instruction), ParseFailure>,
) -> Parsed<InstructionView> {
    match r {
        Ok((rest, instruction)) => Ok((rest@, instruction@)),
        Err(failure) => Err(failure),
    }
}

/// Skips white space, line endings included.
fn skip_multispace<'a>(input: &'a str) -> (rest: &'a str)
    ensures
        rest@ == after_run(input@, CharClass::Multispace),
{
    match multispace0(input) {
        Some(rest) => rest,
        None => input,
    }
}

/// Skips a comment, if one stands at the front.
fn skip_comment<'a>(input: &'a str) -> (rest: &'a str)
    ensures
        rest@ == after_comment(input@),
{
    match comment(input) {
        Ok((rest, _)) => rest,
        Err(_) => input,
    }
}

/// Reads an operand behind blanks or tabs, if one stands there.
fn spaced_operand<'a>(input: &'a str) -> (r: Result<(&'a str, Option<Token>), ParseFailure>)
    ensures
        match r {
            Ok((rest, token)) => optional(input@, spaced_operand_spec(input@)) == Ok::<
                _,
                ParseFailure,
            >((rest@, view_of(token))),
            Err(failure) => optional(input@, spaced_operand_spec(input@)) == Err::<
                (Seq<char>, Option<TokenView>),
                _,
            >(failure),
        },
{
    let start = match space1(input) {
        Some(rest) => rest,
        None => {
            return Ok((input, None));
        },
    };
    match operand(start) {
        Ok((rest, token)) => Ok((rest, Some(token))),
        Err(ParseFailure::NoMatch) => Ok((input, None)),
        Err(failure) => Err(failure),
    }
}

/// Reads an instruction.
pub fn instruction<'a>(input: &'a str) -> (r: Result<(&'a str, Instruction), ParseFailure>)
    ensures
        instruction_outcome(r) == instruction_spec(input@),
{
    let start = skip_comment(skip_multispace(input));
    let (named, label) = match label_decl(start) {
        Ok((rest, token)) => (rest, Some(token)),
        Err(_) => (start, None),
    };
    let (rest, code) = opcode(named)?;
    let (rest, operand1) = spaced_operand(rest)?;
    let (rest, operand2) = spaced_operand(rest)?;
    let (rest, operand3) = spaced_operand(rest)?;
    let rest = skip_multispace(skip_comment(rest));
    Ok((rest, Instruction { opcode: code, label, directive: None, operand1, operand2, operand3 }))
}

} // verus!
