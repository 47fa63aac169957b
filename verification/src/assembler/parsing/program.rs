//! Programs: instructions parted by line endings.

use crate::assembler::lexer::{after_line_ending, line_ending};
use crate::assembler::parsing::error::{ParseFailure, Parsed, ParsingError, ParsingErrorView};
use crate::assembler::parsing::instruction::{
    instruction, instruction_spec, Instruction, InstructionView,
};
use crate::assembler::parsing::tail::{lemma_after_line_ending_tail, lemma_instruction_tail};
use vstd::prelude::*;

verus! {

/// An assembled program.
#[derive(Debug, PartialEq)]
pub struct Program {
    pub instructions: Vec<Instruction>,
}

impl View for Program {
    type V = Seq<InstructionView>;

    open spec fn view(&self) -> Seq<InstructionView> {
        views(self.instructions@)
    }
}

/// The instruction records as mathematical values.
pub open spec fn views(instructions: Seq<Instruction>) -> Seq<InstructionView> {
    Seq::new(instructions.len(), |i: int| instructions[i]@)
}

/// Whether every instruction of the program can be put into bytes.
pub open spec fn encodable(program: Seq<InstructionView>) -> bool {
    forall|i: int| 0 <= i < program.len() ==> (#[trigger] program[i]).to_bytes().is_ok()
}

/// The bytes of the program's instructions, one instruction after the
/// other.
pub open spec fn program_bytes(program: Seq<InstructionView>) -> Seq<u8>
    decreases program.len(),
{
    if program.len() == 0 {
        Seq::empty()
    } else {
        program_bytes(program.drop_last()) + program.last().to_bytes()->Ok_0
    }
}

/// Number of instructions at the front of the program that can be put into
/// bytes: the place of the first one that cannot, where there is one.
pub open spec fn first_failure(program: Seq<InstructionView>) -> int
    decreases program.len(),
{
    if program.len() == 0 || program[0].to_bytes().is_err() {
        0
    } else {
        1 + first_failure(program.drop_first())
    }
}

/// The program in bytes, or why the first of its instructions that cannot
/// be put into bytes cannot.
pub open spec fn assembled(program: Seq<InstructionView>) -> Result<Seq<u8>, ParsingErrorView> {
    if encodable(program) {
        Ok(program_bytes(program))
    } else {
        Err(program[first_failure(program)].to_bytes()->Err_0)
    }
}

/// An instruction that cannot be put into bytes, and stands behind
/// instructions that all can, is the first failure of the program.
pub proof fn lemma_first_failure(program: Seq<InstructionView>, i: int)
    requires
        0 <= i < program.len(),
        forall|k: int| 0 <= k < i ==> (#[trigger] program[k]).to_bytes().is_ok(),
        program[i].to_bytes().is_err(),
    ensures
        first_failure(program) == i,
        !encodable(program),
    decreases i,
{
    if i > 0 {
        let tail = program.drop_first();
        assert(program[0].to_bytes().is_ok());
        assert forall|k: int| 0 <= k < i - 1 implies (#[trigger] tail[k]).to_bytes().is_ok() by {
            assert(tail[k] == program[k + 1]);
        }
        assert(tail[i - 1] == program[i]);
        lemma_first_failure(tail, i - 1);
    }
}

/// What `Program::to_bytes` has returned, as a mathematical value.
pub open spec fn assembled_outcome(r: Result<Vec<u8>, ParsingError>) -> Result<
    Seq<u8>,
    ParsingErrorView,
> {
    match r {
        Ok(bytes) => Ok(bytes@),
        Err(e) => Err(e@),
    }
}

impl Program {
    /// The program in bytes: those of its instructions, one instruction
    /// after the other. Where an instruction cannot be put into bytes, the
    /// first such failure is returned and no bytes are.
    pub fn to_bytes(&self) -> (r: Result<Vec<u8>, ParsingError>)
        ensures
            assembled_outcome(r) == assembled(self@),
    {
        let mut bytes = Vec::new();
        let mut i: usize = 0;
        assert(self@.take(0) =~= Seq::empty());
        while i < self.instructions.len()
            invariant
                i <= self.instructions.len(),
                forall|k: int| 0 <= k < i ==> (#[trigger] self@[k]).to_bytes().is_ok(),
                bytes@ == program_bytes(self@.take(i as int)),
            decreases self.instructions.len() - i,
        {
            match self.instructions[i].to_bytes() {
                Ok(mut encoded) => {
                    bytes.append(&mut encoded);
                },
                Err(e) => {
                    proof {
                        lemma_first_failure(self@, i as int);
                    }
                    return Err(e);
                },
            }
            proof {
                let longer = self@.take(i + 1);
                assert(longer.drop_last() =~= self@.take(i as int));
                assert(longer.last() == self@[i as int]);
            }
            i += 1;
        }
        assert(self@.take(i as int) =~= self@);
        Ok(bytes)
    }
}

/// The result of a rule that reads a list of instructions, with `front`
/// standing before the instructions that it has read.
pub open spec fn preceded_by(
    front: Seq<InstructionView>,
    more: Parsed<Seq<InstructionView>>,
) -> Parsed<Seq<InstructionView>> {
    match more {
        Ok((end, others)) => Ok((end, front + others)),
        Err(failure) => Err(failure),
    }
}

/// The instructions that follow in a program, each behind a line ending.
/// The list ends where no line ending stands, or no instruction behind it;
/// that line ending is not read then.
pub open spec fn more_instructions_spec(s: Seq<char>) -> Parsed<Seq<InstructionView>>
    decreases s.len(),
    via more_instructions_decreases
{
    match after_line_ending(s) {
        None => Ok((s, Seq::empty())),
        Some(next) => match instruction_spec(next) {
            Err(ParseFailure::NoMatch) => Ok((s, Seq::empty())),
            Err(failure) => Err(failure),
            Ok((rest, first)) => preceded_by(seq![first], more_instructions_spec(rest)),
        },
    }
}

#[via_fn]
proof fn more_instructions_decreases(s: Seq<char>) {
    lemma_after_line_ending_tail(s);
    if let Some(next) = after_line_ending(s) {
        lemma_instruction_tail(next);
    }
}

/// A program is one instruction at least, and further instructions each
/// behind a line ending.
pub open spec fn program_spec(s: Seq<char>) -> Parsed<Seq<InstructionView>> {
    match instruction_spec(s) {
        Err(failure) => Err(failure),
        Ok((rest, first)) => preceded_by(seq![first], more_instructions_spec(rest)),
    }
}

/// What the rule for programs has returned, as a mathematical value.
pub open spec fn program_outcome(r: Result<(&str, Program), ParseFailure>) -> Parsed<
    Seq<InstructionView>,
> {
    match r {
        Ok((rest, program)) => Ok((rest@, program@)),
        Err(failure) => Err(failure),
    }
}

/// Reads a program.
pub fn program<'a>(input: &'a str) -> (r: Result<(&'a str, Program), ParseFailure>)
    ensures
        program_outcome(r) == program_spec(input@),
{
    let (first_rest, first) = instruction(input)?;
    let mut instructions: Vec<Instruction> = Vec::new();
    instructions.push(first);
    let mut rest = first_rest;
    assert(views(instructions@) =~= seq![first@]);
    loop
        invariant
            preceded_by(views(instructions@), more_instructions_spec(rest@)) == program_spec(
                input@,
            ),
        ensures
            program_spec(input@) == Ok::<_, ParseFailure>((rest@, views(instructions@))),
        decreases rest@.len(),
    {
        proof {
            lemma_after_line_ending_tail(rest@);
            assert(views(instructions@) + Seq::<InstructionView>::empty() =~= views(
                instructions@,
            ));
        }
        let next = match line_ending(rest) {
            Some(next) => next,
            None => {
                break ;
            },
        };
        proof {
            lemma_instruction_tail(next@);
        }
        match instruction(next) {
            Ok((after, following)) => {
                proof {
                    let so_far = views(instructions@);
                    let longer = views(instructions@.push(following));
                    assert(longer =~= so_far + seq![following@]);
                    if let Ok((end, others)) = more_instructions_spec(after@) {
                        assert(so_far + (seq![following@] + others) =~= longer + others);
                    }
                }
                instructions.push(following);
                rest = after;
            },
            Err(ParseFailure::NoMatch) => {
                break ;
            },
            Err(failure) => {
                return Err(failure);
            },
        }
    }
    let program = Program { instructions };
    Ok((rest, program))
}

} // verus!
