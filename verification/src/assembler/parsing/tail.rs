//! A rule hands back the end of the text that it was given.

use crate::assembler::lexer::{
    after_line_ending, after_run, after_tag, from_first, lemma_run_len, run_len, CharClass,
};
use crate::assembler::parsing::comment::comment_spec;
use crate::assembler::parsing::directive::directive_spec;
use crate::assembler::parsing::error::{optional, Parsed};
use crate::assembler::parsing::instruction::{
    after_comment, instruction_spec, operands_spec, spaced_operand_spec,
};
use crate::assembler::parsing::label::{label_decl_spec, label_usage_spec};
use crate::assembler::parsing::opcode::opcode_spec;
use crate::assembler::parsing::operand::{number_spec, operand_spec, unsigned_part};
use crate::assembler::parsing::register::register_spec;
use crate::assembler::token::TokenView;
use vstd::prelude::*;

verus! {

/// Whether `rest` is the end of `s`.
pub open spec fn is_tail(rest: Seq<char>, s: Seq<char>) -> bool {
    rest.len() <= s.len() && rest == s.skip(s.len() - rest.len())
}

/// Whether a rule that read the text `s` handed back the end of `s`.
pub open spec fn hands_back_tail<T>(rule: Parsed<T>, s: Seq<char>) -> bool {
    rule matches Ok((rest, _)) ==> is_tail(rest, s)
}

/// Whether a rule that read the text `s` handed back the end of `s` and
/// read one character at least.
pub open spec fn reads_some<T>(rule: Parsed<T>, s: Seq<char>) -> bool {
    rule matches Ok((rest, _)) ==> is_tail(rest, s) && rest.len() < s.len()
}

/// Every text is its own end.
pub proof fn lemma_tail_refl(s: Seq<char>)
    ensures
        is_tail(s, s),
{
    assert(s.skip(0) =~= s);
}

/// The end of the end of a text is an end of the text.
pub proof fn lemma_tail_trans(a: Seq<char>, b: Seq<char>, c: Seq<char>)
    requires
        is_tail(a, b),
        is_tail(b, c),
    ensures
        is_tail(a, c),
{
    assert(a =~= c.skip(c.len() - a.len()));
}

/// What is left of a text behind its first `n` characters is its end.
pub proof fn lemma_skip_tail(s: Seq<char>, n: int)
    requires
        0 <= n <= s.len(),
    ensures
        is_tail(s.skip(n), s),
{
}

/// What stands behind a run is the end of the text.
pub proof fn lemma_after_run_tail(s: Seq<char>, class: CharClass)
    ensures
        is_tail(after_run(s, class), s),
        after_run(s, class).len() == s.len() - run_len(s, class),
{
    lemma_run_len(s, class);
    lemma_skip_tail(s, run_len(s, class) as int);
}

/// What stands behind a pattern is the end of the text.
pub proof fn lemma_after_tag_tail(pattern: Seq<char>, s: Seq<char>)
    ensures
        after_tag(pattern, s) matches Some(rest) ==> is_tail(rest, s) && rest.len() == s.len()
            - pattern.len(),
{
    if pattern.is_prefix_of(s) {
        lemma_skip_tail(s, pattern.len() as int);
    }
}

/// What stands behind a line ending is the end of the text, and shorter.
pub proof fn lemma_after_line_ending_tail(s: Seq<char>)
    ensures
        after_line_ending(s) matches Some(rest) ==> is_tail(rest, s) && rest.len() < s.len(),
{
}

/// A text from the first occurrence of a character on is its own end.
pub proof fn lemma_from_first_tail(stop: char, s: Seq<char>)
    ensures
        from_first(stop, s) matches Some(rest) ==> is_tail(rest, s),
{
    lemma_after_run_tail(s, CharClass::Except(stop));
}

/// A comment hands back the end of the text, and is not empty.
pub proof fn lemma_comment_tail(s: Seq<char>)
    ensures
        reads_some(comment_spec(s), s),
        is_tail(after_comment(s), s),
{
    let start = after_run(s, CharClass::Space);
    lemma_after_run_tail(s, CharClass::Space);
    lemma_after_tag_tail(seq![';'], start);
    lemma_tail_refl(s);
    if let Some(text) = after_tag(seq![';'], start) {
        lemma_tail_trans(text, start, s);
        lemma_from_first_tail('\n', text);
        if let Some(end) = from_first('\n', text) {
            lemma_tail_trans(end, text, s);
            lemma_after_run_tail(end, CharClass::Multispace);
            lemma_tail_trans(after_run(end, CharClass::Multispace), end, s);
        }
    }
}

/// A label declaration hands back the end of the text, and is not empty.
pub proof fn lemma_label_decl_tail(s: Seq<char>)
    ensures
        reads_some(label_decl_spec(s), s),
{
    let colon = after_run(s, CharClass::Alphanumeric);
    lemma_after_run_tail(s, CharClass::Alphanumeric);
    lemma_after_tag_tail(seq![':'], colon);
    if let Some(rest) = after_tag(seq![':'], colon) {
        lemma_tail_trans(rest, colon, s);
    }
}

/// A label usage hands back the end of the text, and is not empty.
pub proof fn lemma_label_usage_tail(s: Seq<char>)
    ensures
        reads_some(label_usage_spec(s), s),
{
    lemma_after_tag_tail(seq!['@'], s);
    if let Some(name) = after_tag(seq!['@'], s) {
        lemma_after_run_tail(name, CharClass::Alphanumeric);
        lemma_tail_trans(after_run(name, CharClass::Alphanumeric), name, s);
    }
}

/// A directive hands back the end of the text, and is not empty.
pub proof fn lemma_directive_tail(s: Seq<char>)
    ensures
        reads_some(directive_spec(s), s),
{
    lemma_after_tag_tail(seq!['.'], s);
    if let Some(name) = after_tag(seq!['.'], s) {
        lemma_after_run_tail(name, CharClass::Alpha);
        lemma_tail_trans(after_run(name, CharClass::Alpha), name, s);
    }
}

/// A register hands back the end of the text, and is not empty.
pub proof fn lemma_register_tail(s: Seq<char>)
    ensures
        reads_some(register_spec(s), s),
{
    lemma_after_tag_tail(seq!['$'], s);
    if let Some(digits) = after_tag(seq!['$'], s) {
        lemma_after_run_tail(digits, CharClass::Digit);
        lemma_tail_trans(after_run(digits, CharClass::Digit), digits, s);
    }
}

/// A number hands back the end of the text, and is not empty.
pub proof fn lemma_number_tail(s: Seq<char>)
    ensures
        reads_some(number_spec(s), s),
{
    lemma_after_tag_tail(seq!['#'], s);
    if let Some(signed) = after_tag(seq!['#'], s) {
        let digits = unsigned_part(signed);
        lemma_after_tag_tail(seq!['-'], signed);
        lemma_after_tag_tail(seq!['+'], signed);
        lemma_tail_refl(signed);
        assert(is_tail(digits, signed));
        lemma_tail_trans(digits, signed, s);
        lemma_after_run_tail(digits, CharClass::Digit);
        lemma_tail_trans(after_run(digits, CharClass::Digit), digits, s);
    }
}

/// An opcode hands back the end of the text, and is not empty.
pub proof fn lemma_opcode_tail(s: Seq<char>)
    ensures
        reads_some(opcode_spec(s), s),
{
    lemma_after_run_tail(s, CharClass::Alpha);
}

/// An operand hands back the end of the text, and is not empty.
pub proof fn lemma_operand_tail(s: Seq<char>)
    ensures
        reads_some(operand_spec(s), s),
{
    lemma_number_tail(s);
    lemma_register_tail(s);
    lemma_label_usage_tail(s);
}

/// An operand behind blanks hands back the end of the text; where none
/// stands there, the text itself.
pub proof fn lemma_spaced_operand_tail(s: Seq<char>)
    ensures
        reads_some(spaced_operand_spec(s), s),
        hands_back_tail(optional(s, spaced_operand_spec(s)), s),
{
    let start = after_run(s, CharClass::Space);
    lemma_after_run_tail(s, CharClass::Space);
    lemma_operand_tail(start);
    lemma_tail_refl(s);
    if let Ok((rest, _)) = operand_spec(start) {
        lemma_tail_trans(rest, start, s);
    }
}

/// What follows the opcode hands back the end of the text.
pub proof fn lemma_operands_tail(s: Seq<char>, label: Option<TokenView>, opcode: TokenView)
    ensures
        hands_back_tail(operands_spec(s, label, opcode), s),
{
    lemma_spaced_operand_tail(s);
    if let Ok((s1, _)) = optional(s, spaced_operand_spec(s)) {
        lemma_spaced_operand_tail(s1);
        if let Ok((s2, _)) = optional(s1, spaced_operand_spec(s1)) {
            lemma_tail_trans(s2, s1, s);
            lemma_spaced_operand_tail(s2);
            if let Ok((s3, _)) = optional(s2, spaced_operand_spec(s2)) {
                lemma_tail_trans(s3, s2, s);
                lemma_comment_tail(s3);
                let s4 = after_comment(s3);
                lemma_tail_trans(s4, s3, s);
                lemma_after_run_tail(s4, CharClass::Multispace);
                lemma_tail_trans(after_run(s4, CharClass::Multispace), s4, s);
            }
        }
    }
}

/// An instruction hands back the end of the text, and is not empty.
pub proof fn lemma_instruction_tail(s: Seq<char>)
    ensures
        reads_some(instruction_spec(s), s),
{
    let s0 = after_run(s, CharClass::Multispace);
    lemma_after_run_tail(s, CharClass::Multispace);
    let start = after_comment(s0);
    lemma_comment_tail(s0);
    lemma_tail_trans(start, s0, s);
    lemma_label_decl_tail(start);
    lemma_tail_refl(start);
    if let Ok((named, label)) = optional(start, label_decl_spec(start)) {
        lemma_tail_trans(named, start, s);
        lemma_opcode_tail(named);
        if let Ok((rest, opcode)) = opcode_spec(named) {
            lemma_tail_trans(rest, named, s);
            lemma_operands_tail(rest, label, opcode);
            if let Ok((end, _)) = operands_spec(rest, label, opcode) {
                lemma_tail_trans(end, rest, s);
            }
        }
    }
}

} // verus!
