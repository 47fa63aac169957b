//! What the assembler writes, the machine reads: the two halves agree on the
//! byte format.

use crate::assembler::parsing::InstructionView;
use crate::assembler::token::{immediate_bits, TokenView};
use crate::instruction::{decode, encode, Opcode};
use crate::vm::{operand_width, Fault, Machine, Status, REGISTER_COUNT};
use vstd::prelude::*;

verus! {

/// The record of a `LOAD` of the number `value` into the register `reg`.
pub open spec fn load_record(reg: u8, value: i32) -> InstructionView {
    InstructionView {
        opcode: TokenView::Op { code: Opcode::LOAD },
        label: None,
        directive: None,
        operand1: Some(TokenView::Register { reg_num: reg }),
        operand2: Some(TokenView::Number { value }),
        operand3: None,
    }
}

/// Whether an operand that may be absent is a register.
pub open spec fn is_register(slot: Option<TokenView>) -> bool {
    slot matches Some(TokenView::Register { .. })
}

/// Whether an operand that may be absent is a number.
pub open spec fn is_number(slot: Option<TokenView>) -> bool {
    slot matches Some(TokenView::Number { .. })
}

/// Whether the record holds the operation `code` with the operands that
/// the machine reads behind it: a register and a number for `LOAD`, three
/// registers for the arithmetic operations, two for `EQ`, none for `NOP`,
/// `HLT` and `IGL`, and one register for every other operation.
pub open spec fn fits(record: InstructionView, code: Opcode) -> bool {
    &&& record.opcode == (TokenView::Op { code })
    &&& match code {
        Opcode::NOP | Opcode::HLT | Opcode::IGL => {
            record.operand1.is_none() && record.operand2.is_none() && record.operand3.is_none()
        },
        Opcode::LOAD => {
            is_register(record.operand1) && is_number(record.operand2)
                && record.operand3.is_none()
        },
        Opcode::ADD | Opcode::SUB | Opcode::MUL | Opcode::DIV => {
            is_register(record.operand1) && is_register(record.operand2) && is_register(
                record.operand3,
            )
        },
        Opcode::EQ => {
            is_register(record.operand1) && is_register(record.operand2)
                && record.operand3.is_none()
        },
        _ => {
            is_register(record.operand1) && record.operand2.is_none()
                && record.operand3.is_none()
        },
    }
}

/// Whether the operation moves the program counter by what a register
/// holds.
pub open spec fn jumps(code: Opcode) -> bool {
    code == Opcode::JMP || code == Opcode::JMPF || code == Opcode::JMPB || code == Opcode::JEQ
        || code == Opcode::JNEQ
}

/// The bytes of an instruction record begin with a byte that the machine
/// decodes to the record's opcode.
pub proof fn lemma_opcode_survives(record: InstructionView)
    requires
        record.to_bytes().is_ok(),
    ensures
        record.to_bytes()->Ok_0.len() >= 1,
        record.opcode == (TokenView::Op { code: decode(record.to_bytes()->Ok_0[0]) }),
{
}

/// The two bytes of a number hold its low 16 bits, high byte first; a
/// number from 0 to 65535 is held whole.
pub proof fn lemma_number_bytes(value: i32)
    ensures
        (TokenView::Number { value }).operand_bytes().is_some(),
        (TokenView::Number { value }).operand_bytes().unwrap().len() == 2,
        (TokenView::Number { value }).operand_bytes().unwrap()[0] * 256 + (TokenView::Number {
            value,
        }).operand_bytes().unwrap()[1] == immediate_bits(value),
        0 <= immediate_bits(value) <= 65535,
        0 <= value <= 65535 ==> immediate_bits(value) == value,
{
}

/// A record that holds an operation with the operands that the machine
/// reads behind it has bytes: the operation's byte, and as many more as the
/// machine reads.
pub proof fn lemma_record_width(record: InstructionView, code: Opcode)
    requires
        fits(record, code),
    ensures
        record.to_bytes().is_ok(),
        record.to_bytes()->Ok_0.len() == 1 + operand_width(code),
        record.to_bytes()->Ok_0[0] == encode(code),
{
}

/// A machine that stands at the end of its program, and is given the bytes
/// of a record that holds an operation with its operands, reads exactly
/// those bytes with its next step. `HLT` and `IGL` stop it behind their
/// byte. Every other operation has its operands before it, so none are
/// missing; and where the step does not fault, and the operation is no
/// jump, the machine stands behind the record's bytes, at the end of its
/// program again.
pub proof fn lemma_assembled_step(m: Machine, record: InstructionView, code: Opcode)
    requires
        m.wf(),
        m.pc == m.program.len(),
        fits(record, code),
    ensures
        record.to_bytes().is_ok(),
        ({
            let bytes = record.to_bytes()->Ok_0;
            let loaded = Machine { program: m.program + bytes, ..m };
            &&& code == Opcode::HLT ==> loaded.step() == (loaded.at(m.pc + 1), Status::Halted)
            &&& code == Opcode::IGL ==> loaded.step() == (
                loaded.at(m.pc + 1),
                Status::Illegal(encode(Opcode::IGL)),
            )
            &&& code != Opcode::HLT && code != Opcode::IGL ==> loaded.stands_at(code)
            &&& loaded.step().1 != Status::Done
            &&& loaded.step().1 != Status::Faulted(Fault::ProgramOutOfBounds)
            &&& loaded.step().1 == Status::Running && !jumps(code) ==> loaded.step().0.pc
                == loaded.program.len()
        }),
{
    lemma_record_width(record, code);
    let bytes = record.to_bytes()->Ok_0;
    let loaded = Machine { program: m.program + bytes, ..m };
    assert(loaded.program[m.pc] == bytes[0]);
    assert(decode(encode(code)) == code);
    assert(loaded.program.len() == m.pc + 1 + operand_width(code));
}

/// A machine that stands at the end of its program, and is given the bytes
/// of a `LOAD` record, puts the record's number into the record's register
/// with its next step, and stands behind those bytes.
pub proof fn lemma_assembled_load_runs(m: Machine, reg: u8, value: i32)
    requires
        m.wf(),
        m.pc == m.program.len(),
        reg < REGISTER_COUNT,
    ensures
        load_record(reg, value).to_bytes().is_ok(),
        load_record(reg, value).to_bytes()->Ok_0.len() == 4,
        ({
            let loaded = Machine {
                program: m.program + load_record(reg, value).to_bytes()->Ok_0,
                ..m
            };
            loaded.step() == (
                Machine {
                    registers: m.registers.update(reg as int, immediate_bits(value) as i32),
                    pc: m.pc + 4,
                    ..loaded
                },
                Status::Running,
            )
        }),
{
    lemma_number_bytes(value);
    let record = load_record(reg, value);
    let number = (TokenView::Number { value }).operand_bytes().unwrap();
    let operands = record.operand_bytes()->Ok_0;
    assert(operands =~= seq![reg, number[0], number[1]]);
    let bytes = record.to_bytes()->Ok_0;
    assert(bytes =~= seq![1u8, reg, number[0], number[1]]);
    let loaded = Machine { program: m.program + bytes, ..m };
    assert(loaded.program[m.pc] == 1u8);
    assert(loaded.operand(0) == reg);
    assert(loaded.operand(1) == number[0]);
    assert(loaded.operand(2) == number[1]);
}

/// A machine that stands at the end of its program, and is given the bytes
/// of an `EQ` record on two of its registers, sets the equal flag to
/// whether the two hold the same value, and stands behind the record's
/// three bytes, where the next record's bytes begin.
pub proof fn lemma_assembled_eq_runs(m: Machine, reg1: u8, reg2: u8)
    requires
        m.wf(),
        m.pc == m.program.len(),
        reg1 < REGISTER_COUNT,
        reg2 < REGISTER_COUNT,
    ensures
        ({
            let record = InstructionView {
                opcode: TokenView::Op { code: Opcode::EQ },
                label: None,
                directive: None,
                operand1: Some(TokenView::Register { reg_num: reg1 }),
                operand2: Some(TokenView::Register { reg_num: reg2 }),
                operand3: None,
            };
            let loaded = Machine { program: m.program + record.to_bytes()->Ok_0, ..m };
            &&& record.to_bytes().is_ok()
            &&& record.to_bytes()->Ok_0.len() == 3
            &&& loaded.step() == (
                Machine {
                    equal_flag: m.registers[reg1 as int] == m.registers[reg2 as int],
                    pc: m.pc + 3,
                    ..loaded
                },
                Status::Running,
            )
        }),
{
    let record = InstructionView {
        opcode: TokenView::Op { code: Opcode::EQ },
        label: None,
        directive: None,
        operand1: Some(TokenView::Register { reg_num: reg1 }),
        operand2: Some(TokenView::Register { reg_num: reg2 }),
        operand3: None,
    };
    let operands = record.operand_bytes()->Ok_0;
    assert(operands =~= seq![reg1, reg2]);
    let bytes = record.to_bytes()->Ok_0;
    assert(bytes =~= seq![10u8, reg1, reg2]);
    let loaded = Machine { program: m.program + bytes, ..m };
    assert(loaded.program[m.pc] == 10u8);
    assert(loaded.operand(0) == reg1);
    assert(loaded.operand(1) == reg2);
}

} // verus!
