//! The execution engine: machine state, and the decode/execute step.

use crate::instruction::{decode, Opcode};
use vstd::prelude::*;

verus! {

/// Number of registers in the machine.
pub const REGISTER_COUNT: usize = 32;

/// Number of steps after which [`VM::run`] gives up.
pub const RUN_LIMIT: u64 = u64::MAX;

/// Why an instruction could not be executed.
#[derive(Debug, Clone, Copy, PartialEq, Eq, Structural)]
pub enum Fault {
    /// The instruction's operands run past the end of the program.
    ProgramOutOfBounds,
    /// An operand names a register that the machine does not have.
    RegisterOutOfRange(u8),
    /// A jump target or offset is negative, or a relative jump leaves the
    /// range of the program counter.
    JumpOutOfRange,
    /// The divisor register holds zero.
    DivisionByZero,
    /// The result of an arithmetic operation does not fit a register.
    ArithmeticOverflow,
    /// The heap cannot grow by the requested number of bytes.
    AllocationOutOfRange,
}

/// What a step of the machine came to.
#[derive(Debug, Clone, Copy, PartialEq, Eq, Structural)]
pub enum Status {
    /// An instruction was executed; the machine can go on.
    Running,
    /// The program counter stands at or behind the end of the program.
    Done,
    /// A `HLT` was decoded.
    Halted,
    /// A byte that is no opcode was decoded; it is carried along.
    Illegal(u8),
    /// The instruction at the program counter faulted and was not executed.
    Faulted(Fault),
}

impl Status {
    /// Whether the machine must stop after a step with this status.
    pub open spec fn stops(self) -> bool {
        self != Status::Running
    }

    /// Whether the machine must stop after a step with this status.
    pub fn is_stop(&self) -> (b: bool)
        ensures
            b == self.stops(),
    {
        match self {
            Status::Running => false,
            _ => true,
        }
    }
}

/// The machine state as a mathematical value.
pub struct Machine {
    pub registers: Seq<i32>,
    pub pc: int,
    pub program: Seq<u8>,
    pub heap: Seq<u8>,
    pub remainder: u32,
    pub equal_flag: bool,
}

/// Number of operand bytes that follow the opcode byte and must be present.
pub open spec fn operand_width(op: Opcode) -> int {
    match op {
        Opcode::NOP | Opcode::HLT | Opcode::IGL => 0,
        Opcode::LOAD | Opcode::ADD | Opcode::SUB | Opcode::MUL | Opcode::DIV => 3,
        Opcode::EQ => 2,
        _ => 1,
    }
}

/// Number of leading operand bytes that name a register.
pub open spec fn register_operands(op: Opcode) -> int {
    match op {
        Opcode::LOAD => 1,
        _ => operand_width(op),
    }
}

/// Remainder of the division that rounds towards zero; it has the sign of
/// the dividend.
pub open spec fn truncated_rem(a: int, b: int) -> int
    recommends
        b != 0,
{
    let d = if b < 0 {
        -b
    } else {
        b
    };
    if a >= 0 {
        a % d
    } else {
        -((-a) % d)
    }
}

/// A signed 32-bit value read as an unsigned one (two's complement).
pub open spec fn reinterpret_u32(v: int) -> u32
    recommends
        i32::MIN <= v <= i32::MAX,
{
    if v < 0 {
        (v + 0x1_0000_0000) as u32
    } else {
        v as u32
    }
}

impl Machine {
    /// The `k`-th operand byte of the instruction at the program counter.
    pub open spec fn operand(self, k: int) -> u8 {
        self.program[self.pc + 1 + k]
    }

    /// The register that the `k`-th operand byte names.
    pub open spec fn reg(self, k: int) -> i32 {
        self.registers[self.operand(k) as int]
    }

    /// The 16-bit number held, high byte first, in the operand bytes `k` and
    /// `k + 1`.
    pub open spec fn immediate(self, k: int) -> int {
        self.operand(k) * 256 + self.operand(k + 1)
    }

    /// The first of the leading `n` operand bytes that names no register.
    pub open spec fn bad_register(self, n: int) -> Option<u8> {
        if n >= 1 && self.operand(0) >= REGISTER_COUNT {
            Some(self.operand(0))
        } else if n >= 2 && self.operand(1) >= REGISTER_COUNT {
            Some(self.operand(1))
        } else if n >= 3 && self.operand(2) >= REGISTER_COUNT {
            Some(self.operand(2))
        } else {
            None
        }
    }

    /// This state with the program counter at `pc`.
    pub open spec fn at(self, pc: int) -> Machine {
        Machine { pc, ..self }
    }

    /// This state with `value` in the register that the `k`-th operand byte
    /// names.
    pub open spec fn with_reg(self, k: int, value: int) -> Machine {
        Machine { registers: self.registers.update(self.operand(k) as int, value as i32), ..self }
    }

    /// The state after the arithmetic instruction `op` wrote `value`, or the
    /// fault if `value` fits no register. The program counter stands behind
    /// the three operands.
    pub open spec fn arithmetic(self, value: int) -> Result<Machine, Fault> {
        if i32::MIN <= value <= i32::MAX {
            Ok(self.with_reg(2, value).at(self.pc + 4))
        } else {
            Err(Fault::ArithmeticOverflow)
        }
    }

    /// The state after a jump to `target`, or the fault if the program
    /// counter cannot hold `target`.
    pub open spec fn jump(self, target: int) -> Result<Machine, Fault> {
        if 0 <= target <= usize::MAX {
            Ok(self.at(target))
        } else {
            Err(Fault::JumpOutOfRange)
        }
    }

    /// What the instruction `op` at the program counter does, given that its
    /// operand bytes are present and name registers of the machine.
    pub open spec fn effect(self, op: Opcode) -> Result<Machine, Fault> {
        let next = self.pc + 1 + operand_width(op);
        match op {
            Opcode::NOP | Opcode::HLT | Opcode::IGL => Ok(self.at(next)),
            Opcode::LOAD => Ok(self.with_reg(0, self.immediate(1)).at(next)),
            Opcode::ALLOC => {
                let count = self.reg(0) as int;
                if count < 0 || self.heap.len() + count > usize::MAX {
                    Err(Fault::AllocationOutOfRange)
                } else {
                    Ok(
                        Machine {
                            heap: self.heap + Seq::new(count as nat, |i: int| 0u8),
                            ..self.at(next)
                        },
                    )
                }
            },
            Opcode::ADD => self.arithmetic(self.reg(0) + self.reg(1)),
            Opcode::SUB => self.arithmetic(self.reg(0) - self.reg(1)),
            Opcode::MUL => self.arithmetic(self.reg(0) * self.reg(1)),
            Opcode::DIV => {
                if self.reg(1) == 0 {
                    Err(Fault::DivisionByZero)
                } else if self.reg(0) == i32::MIN && self.reg(1) == -1 {
                    Err(Fault::ArithmeticOverflow)
                } else {
                    match self.arithmetic(self.reg(0) + self.reg(1)) {
                        Ok(m) => Ok(
                            Machine {
                                remainder: reinterpret_u32(
                                    truncated_rem(self.reg(0) as int, self.reg(1) as int),
                                ),
                                ..m
                            },
                        ),
                        Err(fault) => Err(fault),
                    }
                }
            },
            Opcode::JMP => self.jump(self.reg(0) as int),
            Opcode::JMPF => {
                if self.reg(0) < 0 {
                    Err(Fault::JumpOutOfRange)
                } else {
                    self.jump(next + self.reg(0))
                }
            },
            Opcode::JMPB => {
                if self.reg(0) < 0 {
                    Err(Fault::JumpOutOfRange)
                } else {
                    self.jump(next - self.reg(0))
                }
            },
            Opcode::EQ => Ok(Machine { equal_flag: self.reg(0) == self.reg(1), ..self.at(next) }),
            Opcode::JEQ => {
                if self.equal_flag {
                    self.jump(self.reg(0) as int)
                } else {
                    Ok(self.at(next))
                }
            },
            Opcode::JNEQ => {
                if !self.equal_flag {
                    self.jump(self.reg(0) as int)
                } else {
                    Ok(self.at(next))
                }
            },
            Opcode::INC => {
                if self.reg(0) == i32::MAX {
                    Err(Fault::ArithmeticOverflow)
                } else {
                    Ok(self.with_reg(0, self.reg(0) + 1).at(next))
                }
            },
            Opcode::DEC => {
                if self.reg(0) == i32::MIN {
                    Err(Fault::ArithmeticOverflow)
                } else {
                    Ok(self.with_reg(0, self.reg(0) - 1).at(next))
                }
            },
        }
    }

    /// What the instruction `op` at the program counter does: the next state,
    /// or the fault that keeps it from being executed. Missing operand bytes
    /// are found first, then operands that name no register, in their order,
    /// then what the operation itself refuses.
    pub open spec fn execute(self, op: Opcode) -> Result<Machine, Fault> {
        if self.pc + 1 + operand_width(op) > self.program.len() {
            Err(Fault::ProgramOutOfBounds)
        } else {
            match self.bad_register(register_operands(op)) {
                Some(index) => Err(Fault::RegisterOutOfRange(index)),
                None => self.effect(op),
            }
        }
    }

    /// One step of the machine: the state after it, and what it came to.
    ///
    /// With the program counter at or behind the end of the program nothing
    /// changes. `HLT` and a byte that is no opcode move the program counter
    /// past that byte and stop. A faulting instruction changes nothing.
    pub open spec fn step(self) -> (Machine, Status) {
        if !(0 <= self.pc < self.program.len()) {
            (self, Status::Done)
        } else {
            let byte = self.program[self.pc];
            match decode(byte) {
                Opcode::HLT => (self.at(self.pc + 1), Status::Halted),
                Opcode::IGL => (self.at(self.pc + 1), Status::Illegal(byte)),
                op => match self.execute(op) {
                    Ok(next) => (next, Status::Running),
                    Err(fault) => (self, Status::Faulted(fault)),
                },
            }
        }
    }

    /// The state after at most `n` steps, of which only the last may stop,
    /// and what the last step came to (`Running` for `n == 0`).
    pub open spec fn steps(self, n: nat) -> (Machine, Status)
        decreases n,
    {
        if n == 0 {
            (self, Status::Running)
        } else {
            let (next, status) = self.step();
            if status.stops() || n == 1 {
                (next, status)
            } else {
                next.steps((n - 1) as nat)
            }
        }
    }
}

impl Machine {
    /// After `n` steps that did not stop, one more step gives what `n + 1`
    /// steps give.
    pub proof fn lemma_steps_extend(self, n: nat)
        requires
            n >= 1,
            !self.steps(n).1.stops(),
        ensures
            self.steps(n + 1) == self.steps(n).0.step(),
        decreases n,
    {
        let (next, status) = self.step();
        if n > 1 {
            assert(self.steps(n) == next.steps((n - 1) as nat));
            next.lemma_steps_extend((n - 1) as nat);
            assert(self.steps(n + 1) == next.steps(n));
        } else {
            assert(self.steps(1) == (next, status));
            assert(self.steps(2) == next.steps(1));
            assert(next.steps(1) == next.step());
        }
    }

    /// Once a step has stopped the machine, a larger bound on the number of
    /// steps changes nothing.
    pub proof fn lemma_steps_stopped(self, n: nat, more: nat)
        requires
            n >= 1,
            n <= more,
            self.steps(n).1.stops(),
        ensures
            self.steps(more) == self.steps(n),
        decreases n,
    {
        let (next, status) = self.step();
        if !status.stops() && n > 1 {
            next.lemma_steps_stopped((n - 1) as nat, (more - 1) as nat);
        }
    }
}

impl Machine {
    /// Whether this is the state of a machine: it has all its registers,
    /// and a program counter that fits the machine word.
    pub open spec fn wf(self) -> bool {
        &&& self.registers.len() == REGISTER_COUNT
        &&& 0 <= self.pc <= usize::MAX
        &&& self.program.len() <= usize::MAX
    }

    /// Whether the program counter stands at an instruction `op` that is
    /// executed rather than stopped at, with all its operand bytes present.
    pub open spec fn stands_at(self, op: Opcode) -> bool {
        &&& 0 <= self.pc
        &&& self.pc + 1 + operand_width(op) <= self.program.len()
        &&& decode(self.program[self.pc]) == op
        &&& op != Opcode::HLT
        &&& op != Opcode::IGL
    }

    /// `JEQ` jumps to the address in its register exactly when the equal
    /// flag is set, and `JNEQ` exactly when it is not; otherwise either
    /// falls through to the instruction behind it. Nothing but the program
    /// counter changes. A negative address is a fault.
    pub proof fn lemma_conditional_jump(self, op: Opcode)
        requires
            op == Opcode::JEQ || op == Opcode::JNEQ,
            self.stands_at(op),
            self.operand(0) < REGISTER_COUNT,
        ensures
            (op == Opcode::JEQ) != self.equal_flag ==> self.step() == (
                self.at(self.pc + 2),
                Status::Running,
            ),
            (op == Opcode::JEQ) == self.equal_flag && self.reg(0) >= 0 ==> self.step() == (
                self.at(self.reg(0) as int),
                Status::Running,
            ),
            (op == Opcode::JEQ) == self.equal_flag && self.reg(0) < 0 ==> self.step() == (
                self,
                Status::Faulted(Fault::JumpOutOfRange),
            ),
    {
    }

    /// `EQ` sets the equal flag to whether its two registers hold the same
    /// value, and changes nothing else but the program counter.
    pub proof fn lemma_equal_flag(self)
        requires
            self.stands_at(Opcode::EQ),
            self.operand(0) < REGISTER_COUNT,
            self.operand(1) < REGISTER_COUNT,
        ensures
            self.step() == (
                Machine { equal_flag: self.reg(0) == self.reg(1), ..self.at(self.pc + 3) },
                Status::Running,
            ),
    {
    }

    /// An instruction with an operand that names no register is not
    /// executed: the step reports the first such operand and leaves the
    /// machine as it was.
    pub proof fn lemma_register_out_of_range(self, op: Opcode, k: int)
        requires
            self.stands_at(op),
            0 <= k < register_operands(op),
            self.operand(k) >= REGISTER_COUNT,
        ensures
            self.step().0 == self,
            self.step().1 == Status::Faulted(
                Fault::RegisterOutOfRange(self.bad_register(register_operands(op)).unwrap()),
            ),
            self.bad_register(register_operands(op)).unwrap() >= REGISTER_COUNT,
    {
    }

    /// A step never touches the program, the heap only grows (what it held
    /// stays at its front), and the state stays that of a machine.
    pub proof fn lemma_step_preserves(self)
        requires
            self.wf(),
        ensures
            self.step().0.program == self.program,
            self.step().0.wf(),
            self.heap.is_prefix_of(self.step().0.heap),
    {
        let next = self.step().0;
        if next.heap != self.heap {
            assert(next.heap == self.heap + Seq::new(self.reg(0) as nat, |i: int| 0u8));
        }
    }

    /// Any number of steps leaves the program as it was and what the heap
    /// held at its front, and the state stays that of a machine.
    pub proof fn lemma_steps_preserve(self, n: nat)
        requires
            self.wf(),
        ensures
            self.steps(n).0.program == self.program,
            self.steps(n).0.wf(),
            self.heap.is_prefix_of(self.steps(n).0.heap),
        decreases n,
    {
        if n > 0 {
            self.lemma_step_preserves();
            let (next, status) = self.step();
            if !(status.stops() || n == 1) {
                next.lemma_steps_preserve((n - 1) as nat);
            }
        }
    }

    /// A step that stops the machine without a `HLT` or an unknown byte
    /// leaves it as it was, so the next step stops in the same way.
    pub proof fn lemma_stopped_stays(self)
        requires
            self.step().1 == Status::Done || self.step().1 is Faulted,
        ensures
            self.step().0 == self,
    {
    }
}

/// Virtual machine state.
pub struct VM {
    /// VM registers.
    pub registers: [i32; 32],
    /// Program counter.
    pub pc: usize,
    /// Contains program bytecode.
    pub program: Vec<u8>,
    /// Memory heap.
    pub heap: Vec<u8>,
    /// Contains the remainder of the last division.
    pub remainder: u32,
    /// Contains the result of the last comparison operation.
    pub equal_flag: bool,
}

impl View for VM {
    type V = Machine;

    open spec fn view(&self) -> Machine {
        Machine {
            registers: self.registers@,
            pc: self.pc as int,
            program: self.program@,
            heap: self.heap@,
            remainder: self.remainder,
            equal_flag: self.equal_flag,
        }
    }
}

/// The state of a machine that has not run yet: no program, an empty heap,
/// every register zero.
pub open spec fn fresh_machine() -> Machine {
    Machine {
        registers: Seq::new(REGISTER_COUNT as nat, |i: int| 0i32),
        pc: 0,
        program: Seq::empty(),
        heap: Seq::empty(),
        remainder: 0,
        equal_flag: false,
    }
}

impl Default for VM {
    fn default() -> (vm: VM)
        ensures
            vm@ == fresh_machine(),
    {
        let vm = VM {
            registers: [0; 32],
            program: Vec::new(),
            heap: Vec::new(),
            pc: 0,
            remainder: 0,
            equal_flag: false,
        };
        assert(vm.registers@ =~= fresh_machine().registers);
        vm
    }
}

impl VM {
    /// The state of a `VM` is always that of a machine.
    pub proof fn lemma_view_wf(&self)
        ensures
            self@.wf(),
    {
        assert(self.program@.len() == self.program.len());
    }

    /// Initializes a fresh VM state.
    pub fn new() -> (vm: VM)
        ensures
            vm@ == fresh_machine(),
    {
        VM::default()
    }

    /// Appends one byte to the program.
    pub fn add_byte(&mut self, byte: u8)
        ensures
            final(self)@ == (Machine { program: old(self)@.program.push(byte), ..old(self)@ }),
    {
        self.program.push(byte);
    }

    /// Appends `bytes` to the program.
    pub fn add_bytes(&mut self, bytes: Vec<u8>)
        ensures
            final(self)@ == (Machine { program: old(self)@.program + bytes@, ..old(self)@ }),
    {
        let mut bytes = bytes;
        self.program.append(&mut bytes);
    }
}

/// Whether a machine that stood at `m`, behind the opcode byte of `op`, has
/// carried that instruction out: it stands at the next state, or reports the
/// fault with nothing changed but the program counter.
pub open spec fn carried_out(m: Machine, op: Opcode, after: Machine, r: Result<(), Fault>) -> bool {
    match m.execute(op) {
        Ok(next) => r == Ok::<(), Fault>(()) && after == next,
        Err(fault) => r == Err::<(), Fault>(fault) && after.at(m.pc) == m,
    }
}

impl VM {
    /// The state in which the instruction began whose opcode byte the
    /// program counter has just passed.
    pub open spec fn begun(&self) -> Machine {
        self@.at(self.pc - 1)
    }

    /// Whether the program counter stands behind an opcode byte of the
    /// program.
    pub open spec fn in_instruction(&self) -> bool {
        1 <= self.pc <= self.program.len()
    }

    /// Performs a single step of VM execution and says what it came to.
    pub fn step(&mut self) -> (status: Status)
        ensures
            (final(self)@, status) == old(self)@.step(),
    {
        self.execute_instruction()
    }

    /// Runs the VM until a step stops it, and returns what that step came to.
    ///
    /// The machine gives up after [`RUN_LIMIT`] steps, more than any run
    /// lives to see, and then returns `Running`.
    pub fn run(&mut self) -> (status: Status)
        ensures
            (final(self)@, status) == old(self)@.steps(RUN_LIMIT as nat),
    {
        self.step_up_to(RUN_LIMIT)
    }

    /// Performs up to `n` steps of VM execution: it ends with the first step
    /// that stops, or after `n` steps. Returns what the last step came to
    /// (`Running` for `n == 0`).
    pub fn step_times(&mut self, n: usize) -> (status: Status)
        ensures
            (final(self)@, status) == old(self)@.steps(n as nat),
    {
        self.step_up_to(n as u64)
    }

    /// Executes instructions until one stops the machine or `n` of them
    /// have been executed.
    fn step_up_to(&mut self, n: u64) -> (status: Status)
        ensures
            (final(self)@, status) == old(self)@.steps(n as nat),
    {
        let mut status = Status::Running;
        let mut left = n;
        while left > 0 && !status.is_stop()
            invariant
                left <= n,
                left == n ==> self@ == old(self)@ && status == Status::Running,
                left < n ==> (self@, status) == old(self)@.steps((n - left) as nat),
            decreases left,
        {
            proof {
                if left < n {
                    old(self)@.lemma_steps_extend((n - left) as nat);
                }
            }
            status = self.execute_instruction();
            left -= 1;
        }
        proof {
            if left > 0 && left < n {
                old(self)@.lemma_steps_stopped((n - left) as nat, n as nat);
            }
        }
        status
    }

    /// Executes the current VM instruction.
    fn execute_instruction(&mut self) -> (status: Status)
        ensures
            (final(self)@, status) == old(self)@.step(),
    {
        if self.pc >= self.program.len() {
            return Status::Done;
        }
        let start = self.pc;
        let byte = self.program[start];
        let opcode = self.decode_opcode();
        let outcome = match opcode {
            Opcode::HLT => {
                return Status::Halted;
            },
            Opcode::IGL => {
                return Status::Illegal(byte);
            },
            Opcode::NOP => Ok(()),
            Opcode::LOAD => self.load(),
            Opcode::ALLOC => self.allocate(),
            Opcode::ADD | Opcode::SUB | Opcode::MUL | Opcode::DIV => self.arithmetic(opcode),
            Opcode::JMP | Opcode::JMPF | Opcode::JMPB => self.jump(opcode),
            Opcode::EQ => self.equal(),
            Opcode::JEQ | Opcode::JNEQ => self.jump_if(opcode),
            Opcode::INC | Opcode::DEC => self.count(opcode),
        };
        match outcome {
            Ok(()) => Status::Running,
            Err(fault) => {
                self.pc = start;
                Status::Faulted(fault)
            },
        }
    }

    /// Reads the next byte as `usize`.
    fn next_8(&mut self) -> (byte: usize)
        requires
            old(self).pc < old(self).program.len(),
        ensures
            byte == old(self)@.program[old(self).pc as int],
            final(self)@ == old(self)@.at(old(self).pc + 1),
    {
        let result = self.program[self.pc];
        self.pc += 1;
        result as usize
    }

    /// Reads the next 2 bytes as `u16`, high byte first.
    fn next_16(&mut self) -> (value: u16)
        requires
            old(self).pc + 1 < old(self).program.len(),
        ensures
            value == old(self)@.at(old(self).pc - 1).immediate(0),
            final(self)@ == old(self)@.at(old(self).pc + 2),
    {
        let high = self.program[self.pc] as u16;
        let low = self.program[self.pc + 1] as u16;
        self.pc += 2;
        high * 256 + low
    }

    /// Decodes and returns the current `Opcode` and moves the program
    /// counter past it.
    fn decode_opcode(&mut self) -> (opcode: Opcode)
        requires
            old(self).pc < old(self).program.len(),
        ensures
            opcode == decode(old(self)@.program[old(self).pc as int]),
            final(self)@ == old(self)@.at(old(self).pc + 1),
    {
        let opcode = Opcode::from(self.program[self.pc]);
        self.pc += 1;
        opcode
    }

    /// Reads the next byte as the index of a register.
    fn next_register(&mut self) -> (r: Result<usize, Fault>)
        requires
            old(self).pc < old(self).program.len(),
        ensures
            final(self)@ == old(self)@.at(old(self).pc + 1),
            r == if old(self)@.program[old(self).pc as int] < REGISTER_COUNT {
                Ok::<usize, Fault>(old(self)@.program[old(self).pc as int] as usize)
            } else {
                Err::<usize, Fault>(
                    Fault::RegisterOutOfRange(old(self)@.program[old(self).pc as int]),
                )
            },
    {
        let index = self.next_8();
        if index < REGISTER_COUNT {
            Ok(index)
        } else {
            Err(Fault::RegisterOutOfRange(index as u8))
        }
    }

    /// Number of program bytes from the program counter on.
    fn remaining(&self) -> (n: usize)
        requires
            self.pc <= self.program.len(),
        ensures
            n == self.program.len() - self.pc,
    {
        self.program.len() - self.pc
    }

    /// Moves the program counter to `target`, if it can hold it.
    fn jump_to(&mut self, target: i32) -> (r: Result<(), Fault>)
        ensures
            match old(self)@.jump(target as int) {
                Ok(next) => r == Ok::<(), Fault>(()) && final(self)@ == next,
                Err(fault) => r == Err::<(), Fault>(fault) && final(self)@ == old(self)@,
            },
    {
        if target < 0 {
            Err(Fault::JumpOutOfRange)
        } else {
            self.pc = target as usize;
            Ok(())
        }
    }

    /// `LOAD reg imm16`.
    fn load(&mut self) -> (r: Result<(), Fault>)
        requires
            old(self).in_instruction(),
        ensures
            carried_out(old(self).begun(), Opcode::LOAD, final(self)@, r),
    {
        if self.remaining() < 3 {
            return Err(Fault::ProgramOutOfBounds);
        }
        let reg = self.next_register()?;
        let num = self.next_16();
        self.registers[reg] = num as i32;
        Ok(())
    }

    /// `ALLOC reg`.
    fn allocate(&mut self) -> (r: Result<(), Fault>)
        requires
            old(self).in_instruction(),
        ensures
            carried_out(old(self).begun(), Opcode::ALLOC, final(self)@, r),
    {
        if self.remaining() < 1 {
            return Err(Fault::ProgramOutOfBounds);
        }
        let reg = self.next_register()?;
        let bytes = self.registers[reg];
        if bytes < 0 {
            return Err(Fault::AllocationOutOfRange);
        }
        match self.heap.len().checked_add(bytes as usize) {
            Some(size) => {
                let ghost before = self.heap@;
                self.heap.resize(size, 0);
                assert(self.heap@ =~= before + Seq::new(bytes as nat, |i: int| 0u8));
                Ok(())
            },
            None => Err(Fault::AllocationOutOfRange),
        }
    }

    /// `ADD`, `SUB`, `MUL` and `DIV`, each with two source registers and a
    /// destination register.
    fn arithmetic(&mut self, op: Opcode) -> (r: Result<(), Fault>)
        requires
            old(self).in_instruction(),
            op == Opcode::ADD || op == Opcode::SUB || op == Opcode::MUL || op == Opcode::DIV,
        ensures
            carried_out(old(self).begun(), op, final(self)@, r),
    {
        if self.remaining() < 3 {
            return Err(Fault::ProgramOutOfBounds);
        }
        let src1 = self.next_register()?;
        let src2 = self.next_register()?;
        let dst = self.next_register()?;
        let reg1 = self.registers[src1];
        let reg2 = self.registers[src2];
        let value = match op {
            Opcode::ADD => reg1.checked_add(reg2),
            Opcode::SUB => reg1.checked_sub(reg2),
            Opcode::MUL => reg1.checked_mul(reg2),
            _ => {
                if reg2 == 0 {
                    return Err(Fault::DivisionByZero);
                }
                match remainder_bits(reg1, reg2) {
                    Some(rem) => {
                        let sum = reg1.checked_add(reg2);
                        if sum.is_some() {
                            self.remainder = rem;
                        }
                        sum
                    },
                    None => None,
                }
            },
        };
        match value {
            Some(v) => {
                self.registers[dst] = v;
                Ok(())
            },
            None => Err(Fault::ArithmeticOverflow),
        }
    }

    /// `JMP`, `JMPF` and `JMPB`, each with the register that holds the
    /// target or the offset.
    fn jump(&mut self, op: Opcode) -> (r: Result<(), Fault>)
        requires
            old(self).in_instruction(),
            op == Opcode::JMP || op == Opcode::JMPF || op == Opcode::JMPB,
        ensures
            carried_out(old(self).begun(), op, final(self)@, r),
    {
        if self.remaining() < 1 {
            return Err(Fault::ProgramOutOfBounds);
        }
        let reg = self.next_register()?;
        let distance = self.registers[reg];
        if distance < 0 {
            return Err(Fault::JumpOutOfRange);
        }
        let target = match op {
            Opcode::JMP => Some(distance as usize),
            Opcode::JMPF => self.pc.checked_add(distance as usize),
            _ => self.pc.checked_sub(distance as usize),
        };
        match target {
            Some(pc) => {
                self.pc = pc;
                Ok(())
            },
            None => Err(Fault::JumpOutOfRange),
        }
    }

    /// `EQ reg1 reg2`.
    fn equal(&mut self) -> (r: Result<(), Fault>)
        requires
            old(self).in_instruction(),
        ensures
            carried_out(old(self).begun(), Opcode::EQ, final(self)@, r),
    {
        if self.remaining() < 2 {
            return Err(Fault::ProgramOutOfBounds);
        }
        let reg1 = self.next_register()?;
        let reg2 = self.next_register()?;
        self.equal_flag = self.registers[reg1] == self.registers[reg2];
        Ok(())
    }

    /// `JEQ reg` and `JNEQ reg`.
    fn jump_if(&mut self, op: Opcode) -> (r: Result<(), Fault>)
        requires
            old(self).in_instruction(),
            op == Opcode::JEQ || op == Opcode::JNEQ,
        ensures
            carried_out(old(self).begun(), op, final(self)@, r),
    {
        if self.remaining() < 1 {
            return Err(Fault::ProgramOutOfBounds);
        }
        let reg = self.next_register()?;
        let target = self.registers[reg];
        let taken = match op {
            Opcode::JEQ => self.equal_flag,
            _ => !self.equal_flag,
        };
        if taken {
            self.jump_to(target)
        } else {
            Ok(())
        }
    }

    /// `INC reg` and `DEC reg`.
    fn count(&mut self, op: Opcode) -> (r: Result<(), Fault>)
        requires
            old(self).in_instruction(),
            op == Opcode::INC || op == Opcode::DEC,
        ensures
            carried_out(old(self).begun(), op, final(self)@, r),
    {
        if self.remaining() < 1 {
            return Err(Fault::ProgramOutOfBounds);
        }
        let reg = self.next_register()?;
        let value = match op {
            Opcode::INC => self.registers[reg].checked_add(1),
            _ => self.registers[reg].checked_sub(1),
        };
        match value {
            Some(v) => {
                self.registers[reg] = v;
                Ok(())
            },
            None => Err(Fault::ArithmeticOverflow),
        }
    }
}

/// The remainder of `a` divided by `b`, rounding towards zero, as the
/// unsigned value with the same bits; `None` where the division overflows.
fn remainder_bits(a: i32, b: i32) -> (r: Option<u32>)
    requires
        b != 0,
    ensures
        r == if a == i32::MIN && b == -1 {
            None
        } else {
            Some(reinterpret_u32(truncated_rem(a as int, b as int)))
        },
{
    match a.checked_rem(b) {
        Some(rem) => {
            assert(rem == truncated_rem(a as int, b as int)) by {
                let x = a as int;
                let d = b as int;
                assert(x * -1 == -x);
                assert(d * -1 == -d);
            }
            Some(unsigned_bits(rem))
        },
        None => None,
    }
}

/// The bits of a signed value as an unsigned one.
fn unsigned_bits(v: i32) -> (u: u32)
    ensures
        u == reinterpret_u32(v as int),
{
    if v < 0 {
        (v as i64 + 0x1_0000_0000i64) as u32
    } else {
        v as u32
    }
}

} // verus!
