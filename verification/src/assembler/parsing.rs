//! The grammar of assembly text, one rule per module.
//!
//! Every rule takes the text that is left and returns what follows the part
//! it has read, together with what it has read. A rule that does not match
//! reads nothing.

mod comment;
pub mod decimal;
mod directive;
mod error;
mod instruction;
mod label;
mod laws;
mod opcode;
mod operand;
mod program;
mod register;
mod tail;

pub use comment::{comment, comment_spec};
pub use decimal::{
    all_digits, decimal_digits, decimal_text, decimal_value, digit_char, lemma_decimal_prefix,
    lemma_decimal_round_trip, lemma_run_all_digits,
};
pub use directive::{directive, directive_spec};
pub use error::{
    optional, or_else, token_outcome, ParseFailure, Parsed, ParsingError, ParsingErrorView,
};
pub use instruction::{
    after_comment, instruction, instruction_outcome, instruction_spec, operands_spec, slot_bytes,
    spaced_operand_spec, Instruction, InstructionView,
};
pub use label::{label_decl, label_decl_spec, label_usage, label_usage_spec};
pub use laws::{
    begins_with_space, is_blank, is_comment_only, lemma_blank_is_no_program,
    lemma_comment_only_is_no_program, lemma_no_space_after_instruction,
    lemma_no_space_after_skip, lemma_program_is_not_empty, lemma_program_is_one_instruction,
};
pub use opcode::{opcode, opcode_spec};
pub use operand::{number, number_spec, operand, operand_spec, unsigned_part};
pub use program::{
    assembled, assembled_outcome, encodable, first_failure, lemma_first_failure,
    more_instructions_spec, preceded_by, program, program_bytes, program_outcome, program_spec,
    views, Program,
};
pub use register::{register, register_spec};
pub use tail::{
    hands_back_tail, is_tail, lemma_after_line_ending_tail, lemma_after_run_tail,
    lemma_after_tag_tail, lemma_comment_tail, lemma_directive_tail, lemma_from_first_tail,
    lemma_instruction_tail, lemma_label_decl_tail, lemma_label_usage_tail, lemma_number_tail,
    lemma_opcode_tail, lemma_operand_tail, lemma_operands_tail, lemma_register_tail,
    lemma_skip_tail, lemma_spaced_operand_tail, lemma_tail_refl, lemma_tail_trans, reads_some,
};
