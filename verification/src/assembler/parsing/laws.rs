//! What holds of every text that the grammar reads.

use crate::assembler::lexer::{
    after_line_ending, after_run, from_first, lemma_run_is, lemma_run_len, run_len, CharClass,
};
use crate::assembler::parsing::error::{optional, ParseFailure};
use crate::assembler::parsing::instruction::{
    after_comment, instruction_spec, operands_spec, spaced_operand_spec, InstructionView,
};
use crate::assembler::parsing::label::label_decl_spec;
use crate::assembler::parsing::opcode::opcode_spec;
use crate::assembler::parsing::program::program_spec;
use crate::assembler::token::TokenView;
use vstd::prelude::*;

verus! {

/// Whether `s` holds nothing but blanks, tabs, carriage returns and line
/// feeds.
pub open spec fn is_blank(s: Seq<char>) -> bool {
    forall|i: int| 0 <= i < s.len() ==> CharClass::Multispace.holds(#[trigger] s[i])
}

/// Whether `s` begins with a blank, a tab, a carriage return or a line
/// feed.
pub open spec fn begins_with_space(s: Seq<char>) -> bool {
    s.len() > 0 && CharClass::Multispace.holds(s[0])
}

/// Behind skipped white space no white space stands.
pub proof fn lemma_no_space_after_skip(s: Seq<char>)
    ensures
        !begins_with_space(after_run(s, CharClass::Multispace)),
{
    lemma_run_len(s, CharClass::Multispace);
}

/// Behind what follows an opcode no white space stands.
proof fn lemma_no_space_after_operands(s: Seq<char>, label: Option<TokenView>, opcode: TokenView)
    ensures
        operands_spec(s, label, opcode) matches Ok((rest, _)) ==> !begins_with_space(rest),
{
    if let Ok((s1, _)) = optional(s, spaced_operand_spec(s)) {
        if let Ok((s2, _)) = optional(s1, spaced_operand_spec(s1)) {
            if let Ok((s3, _)) = optional(s2, spaced_operand_spec(s2)) {
                lemma_no_space_after_skip(after_comment(s3));
            }
        }
    }
}

/// An instruction takes the white space behind it along: what it hands
/// back does not begin with white space.
pub proof fn lemma_no_space_after_instruction(s: Seq<char>)
    ensures
        instruction_spec(s) matches Ok((rest, _)) ==> !begins_with_space(rest),
{
    let start = after_comment(after_run(s, CharClass::Multispace));
    if let Ok((named, label)) = optional(start, label_decl_spec(start)) {
        if let Ok((rest, opcode)) = opcode_spec(named) {
            lemma_no_space_after_operands(rest, label, opcode);
        }
    }
}

/// A program that was read holds one instruction and no more. A line
/// ending behind an instruction is read with that instruction, so none is
/// left to part it from a next one: the text behind the first instruction
/// is handed back as it is.
pub proof fn lemma_program_is_one_instruction(s: Seq<char>)
    ensures
        program_spec(s) == match instruction_spec(s) {
            Ok((rest, first)) => Ok::<_, ParseFailure>((rest, seq![first])),
            Err(failure) => Err::<(Seq<char>, Seq<InstructionView>), _>(failure),
        },
{
    if let Ok((rest, first)) = instruction_spec(s) {
        lemma_no_space_after_instruction(s);
        assert(after_line_ending(rest).is_none());
        assert(seq![first] + Seq::<InstructionView>::empty() =~= seq![first]);
    }
}

/// A text of white space alone is no instruction and no program.
pub proof fn lemma_blank_is_no_program(s: Seq<char>)
    requires
        is_blank(s),
    ensures
        instruction_spec(s) == Err::<(Seq<char>, InstructionView), _>(ParseFailure::NoMatch),
        program_spec(s) == Err::<(Seq<char>, Seq<InstructionView>), _>(ParseFailure::NoMatch),
{
    lemma_run_is(s, CharClass::Multispace, s.len());
    let nothing = after_run(s, CharClass::Multispace);
    assert(nothing =~= Seq::<char>::empty());
    assert(run_len(nothing, CharClass::Space) == 0);
    assert(after_run(nothing, CharClass::Space) =~= nothing);
    assert(!seq![';'].is_prefix_of(nothing));
    assert(after_comment(nothing) == nothing);
    assert(run_len(nothing, CharClass::Alphanumeric) == 0);
    assert(run_len(nothing, CharClass::Alpha) == 0);
}

/// Whether `s` holds a comment and nothing else: behind white space a `;`,
/// and behind the end of that line, if the line ends, white space alone.
pub open spec fn is_comment_only(s: Seq<char>) -> bool {
    let start = after_run(s, CharClass::Multispace);
    &&& start.len() > 0
    &&& start[0] == ';'
    &&& from_first('\n', start.skip(1)) matches Some(end) ==> is_blank(end)
}

/// A text that holds a comment and nothing else is no instruction and no
/// program.
pub proof fn lemma_comment_only_is_no_program(s: Seq<char>)
    requires
        is_comment_only(s),
    ensures
        instruction_spec(s) == Err::<(Seq<char>, InstructionView), _>(ParseFailure::NoMatch),
        program_spec(s) == Err::<(Seq<char>, Seq<InstructionView>), _>(ParseFailure::NoMatch),
{
    let start = after_run(s, CharClass::Multispace);
    assert(run_len(start, CharClass::Space) == 0);
    assert(after_run(start, CharClass::Space) =~= start);
    assert(seq![';'].is_prefix_of(start));
    assert(run_len(start, CharClass::Alphanumeric) == 0);
    assert(run_len(start, CharClass::Alpha) == 0);
    if let Some(end) = from_first('\n', start.skip(1)) {
        lemma_run_is(end, CharClass::Multispace, end.len());
        let nothing = after_run(end, CharClass::Multispace);
        assert(nothing =~= Seq::<char>::empty());
        assert(after_comment(start) == nothing);
        assert(run_len(nothing, CharClass::Alphanumeric) == 0);
        assert(run_len(nothing, CharClass::Alpha) == 0);
    } else {
        assert(after_comment(start) == start);
    }
}

/// A program that was read holds an instruction.
pub proof fn lemma_program_is_not_empty(s: Seq<char>)
    ensures
        program_spec(s) matches Ok((_, instructions)) ==> instructions.len() >= 1,
{
    lemma_program_is_one_instruction(s);
}

} // verus!
