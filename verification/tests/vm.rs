use iridium::instruction::Opcode;
use iridium::vm::{Fault, Status, VM};

#[test]
fn test_create_vm() {
    let vm = VM::new();
    assert_eq!(vm.registers[0], 0);
}

#[test]
fn vm_test_opcode_load() {
    let mut vm = VM::new();
    vm.program = vec![Opcode::LOAD.into(), 0, 1, 244];
    vm.run();
    assert_eq!(vm.registers[0], 500);
}

#[test]
fn test_opcode_alloc() {
    let mut vm = VM::new();
    vm.registers[0] = 1024;
    vm.program = vec![Opcode::ALLOC.into(), 0, 0, 0];
    vm.step();
    assert_eq!(vm.heap.len(), 1024);
}

#[test]
fn test_opcode_jmp() {
    let mut vm = VM::new();
    vm.registers[0] = 1;
    vm.program = vec![0, 0, Opcode::JMP.into(), 0, 0];
    vm.step_times(3);
    assert_eq!(vm.pc, 1);
}

#[test]
fn test_opcode_jmpf() {
    let mut vm = VM::new();
    vm.registers[0] = 2;
    vm.program = vec![Opcode::JMPF.into(), 0, 0, 0, 6, 0, 0, 0];
    vm.step();
    assert_eq!(vm.pc, 4);
}

#[test]
fn test_opcode_eq() {
    let mut vm = VM::new();
    vm.registers[0] = 10;
    vm.registers[1] = 10;
    vm.program = vec![Opcode::EQ.into(), 0, 1, Opcode::EQ.into(), 0, 1];
    vm.step();
    assert_eq!(vm.equal_flag, true);
    vm.registers[1] = 20;
    vm.step();
    assert_eq!(vm.equal_flag, false);
}

#[test]
fn test_opcode_jeq() {
    let mut vm = VM::new();
    vm.registers[0] = 7;
    vm.equal_flag = true;
    vm.program = vec![Opcode::JEQ.into(), 0, 0, 0, 17, 0, 0, 0, 17, 0, 0, 0];
    vm.step();
    assert_eq!(vm.pc, 7);
}

#[test]
fn test_opcode_jneq() {
    let mut vm = VM::new();
    vm.registers[0] = 6;
    vm.equal_flag = true;
    vm.program = vec![Opcode::JNEQ.into(), 0, Opcode::JNEQ.into(), 0, 0, 0, 0, 0];
    vm.step();
    assert_eq!(vm.pc, 2);
    vm.equal_flag = false;
    vm.step();
    assert_eq!(vm.pc, 6);
}

#[test]
fn test_opcode_hlt() {
    let mut vm = VM::new();
    let test_bytes = vec![Opcode::HLT.into(), 0, 0, 0];
    vm.program = test_bytes;
    vm.step();
    assert_eq!(vm.pc, 1);
}

#[test]
fn test_opcode_igl() {
    let mut vm = VM::new();
    let test_bytes = vec![200, 0, 0, 0];
    vm.program = test_bytes;
    vm.step();
    assert_eq!(vm.pc, 1);
}

fn machine(program: Vec<u8>) -> VM {
    let mut vm = VM::new();
    vm.program = program;
    vm
}

#[test]
fn fresh_machine_is_blank() {
    let vm = VM::new();
    assert_eq!(vm.registers, [0; 32]);
    assert_eq!(vm.pc, 0);
    assert!(vm.program.is_empty());
    assert!(vm.heap.is_empty());
    assert_eq!(vm.remainder, 0);
    assert_eq!(vm.equal_flag, false);
}

#[test]
fn add_byte_and_add_bytes_append() {
    let mut vm = VM::new();
    vm.add_byte(1);
    vm.add_bytes(vec![2, 3]);
    vm.add_byte(4);
    vm.add_bytes(vec![]);
    assert_eq!(vm.program, vec![1, 2, 3, 4]);
    assert_eq!(vm.pc, 0);
}

#[test]
fn step_on_empty_program_is_done() {
    let mut vm = VM::new();
    assert_eq!(vm.step(), Status::Done);
    assert_eq!(vm.pc, 0);
    assert_eq!(vm.run(), Status::Done);
    assert_eq!(vm.step_times(5), Status::Done);
}

#[test]
fn step_behind_the_end_is_done() {
    let mut vm = machine(vec![0, 0]);
    vm.pc = 9;
    assert_eq!(vm.step(), Status::Done);
    assert_eq!(vm.pc, 9);
}

#[test]
fn nop_moves_one_byte() {
    let mut vm = machine(vec![0, 0]);
    assert_eq!(vm.step(), Status::Running);
    assert_eq!(vm.pc, 1);
}

#[test]
fn hlt_halts_with_pc_behind_it() {
    let mut vm = machine(vec![99]);
    assert_eq!(vm.run(), Status::Halted);
    assert_eq!(vm.pc, 1);
}

#[test]
fn illegal_byte_is_carried_in_the_status() {
    let mut vm = machine(vec![200, 0, 0, 0]);
    assert_eq!(vm.step(), Status::Illegal(200));
    assert_eq!(vm.pc, 1);
    let mut vm = machine(vec![100]);
    assert_eq!(vm.step(), Status::Illegal(100));
}

#[test]
fn load_reads_high_byte_first() {
    let mut vm = machine(vec![1, 31, 255, 255, 1, 0, 0, 7]);
    assert_eq!(vm.step(), Status::Running);
    assert_eq!(vm.registers[31], 65535);
    assert_eq!(vm.pc, 4);
    assert_eq!(vm.step(), Status::Running);
    assert_eq!(vm.registers[0], 7);
    assert_eq!(vm.pc, 8);
}

#[test]
fn alloc_appends_zeros_to_the_heap() {
    let mut vm = machine(vec![2, 0, 2, 1]);
    vm.registers[0] = 3;
    vm.registers[1] = 2;
    vm.heap = vec![9, 9];
    assert_eq!(vm.step(), Status::Running);
    assert_eq!(vm.heap, vec![9, 9, 0, 0, 0]);
    assert_eq!(vm.pc, 2);
    assert_eq!(vm.step(), Status::Running);
    assert_eq!(vm.heap, vec![9, 9, 0, 0, 0, 0, 0]);
}

#[test]
fn alloc_of_zero_bytes_changes_nothing_but_pc() {
    let mut vm = machine(vec![2, 0]);
    assert_eq!(vm.step(), Status::Running);
    assert!(vm.heap.is_empty());
    assert_eq!(vm.pc, 2);
}

#[test]
fn alloc_of_negative_count_faults() {
    let mut vm = machine(vec![2, 0]);
    vm.registers[0] = -1;
    assert_eq!(vm.step(), Status::Faulted(Fault::AllocationOutOfRange));
    assert!(vm.heap.is_empty());
    assert_eq!(vm.pc, 0);
}

#[test]
fn add_sub_mul_write_the_third_register() {
    let mut vm = machine(vec![3, 0, 1, 2, 4, 0, 1, 3, 5, 0, 1, 4]);
    vm.registers[0] = 6;
    vm.registers[1] = -7;
    assert_eq!(vm.step_times(3), Status::Running);
    assert_eq!(vm.registers[2], -1);
    assert_eq!(vm.registers[3], 13);
    assert_eq!(vm.registers[4], -42);
    assert_eq!(vm.pc, 12);
    assert_eq!(vm.registers[0], 6);
    assert_eq!(vm.registers[1], -7);
}

#[test]
fn arithmetic_overflow_faults_and_changes_nothing() {
    for op in [3u8, 4, 5] {
        let mut vm = machine(vec![op, 0, 1, 2]);
        vm.registers[0] = if op == 4 { i32::MIN } else { i32::MAX };
        vm.registers[1] = 2;
        vm.registers[2] = 77;
        assert_eq!(vm.step(), Status::Faulted(Fault::ArithmeticOverflow));
        assert_eq!(vm.registers[2], 77);
        assert_eq!(vm.pc, 0);
    }
}

#[test]
fn div_writes_the_sum_and_keeps_the_remainder() {
    let mut vm = machine(vec![6, 0, 1, 2]);
    vm.registers[0] = 7;
    vm.registers[1] = 3;
    assert_eq!(vm.step(), Status::Running);
    assert_eq!(vm.registers[2], 10);
    assert_eq!(vm.remainder, 1);
    assert_eq!(vm.pc, 4);
}

#[test]
fn div_remainder_has_the_sign_of_the_dividend() {
    let mut vm = machine(vec![6, 0, 1, 2, 6, 3, 1, 2]);
    vm.registers[0] = -7;
    vm.registers[1] = 3;
    vm.registers[3] = 7;
    assert_eq!(vm.step(), Status::Running);
    assert_eq!(vm.registers[2], -4);
    assert_eq!(vm.remainder, 0xffff_ffff);
    vm.registers[1] = -3;
    assert_eq!(vm.step(), Status::Running);
    assert_eq!(vm.registers[2], 4);
    assert_eq!(vm.remainder, 1);
}

#[test]
fn div_by_zero_faults() {
    let mut vm = machine(vec![6, 0, 1, 2]);
    vm.registers[0] = 7;
    vm.remainder = 5;
    assert_eq!(vm.step(), Status::Faulted(Fault::DivisionByZero));
    assert_eq!(vm.registers[2], 0);
    assert_eq!(vm.remainder, 5);
    assert_eq!(vm.pc, 0);
}

#[test]
fn div_of_least_number_by_minus_one_faults() {
    let mut vm = machine(vec![6, 0, 1, 2]);
    vm.registers[0] = i32::MIN;
    vm.registers[1] = -1;
    assert_eq!(vm.step(), Status::Faulted(Fault::ArithmeticOverflow));
    assert_eq!(vm.pc, 0);
}

#[test]
fn div_with_overflowing_sum_faults_and_keeps_the_remainder() {
    let mut vm = machine(vec![6, 0, 1, 2]);
    vm.registers[0] = i32::MAX;
    vm.registers[1] = 1;
    vm.remainder = 5;
    assert_eq!(vm.step(), Status::Faulted(Fault::ArithmeticOverflow));
    assert_eq!(vm.remainder, 5);
}

#[test]
fn jmp_sets_pc() {
    let mut vm = machine(vec![7, 0]);
    vm.registers[0] = 1000;
    assert_eq!(vm.step(), Status::Running);
    assert_eq!(vm.pc, 1000);
    assert_eq!(vm.step(), Status::Done);
}

#[test]
fn negative_jump_target_faults() {
    for op in [7u8, 8, 9, 11] {
        let mut vm = machine(vec![op, 0]);
        vm.registers[0] = -1;
        vm.equal_flag = true;
        assert_eq!(vm.step(), Status::Faulted(Fault::JumpOutOfRange));
        assert_eq!(vm.pc, 0);
    }
}

#[test]
fn jmpb_goes_back_from_behind_its_operand() {
    let mut vm = machine(vec![0, 0, 9, 0]);
    vm.pc = 2;
    vm.registers[0] = 3;
    assert_eq!(vm.step(), Status::Running);
    assert_eq!(vm.pc, 1);
}

#[test]
fn jmpb_before_the_start_faults() {
    let mut vm = machine(vec![9, 0]);
    vm.registers[0] = 3;
    assert_eq!(vm.step(), Status::Faulted(Fault::JumpOutOfRange));
    assert_eq!(vm.pc, 0);
}

#[test]
fn jeq_falls_through_when_flag_is_clear() {
    let mut vm = machine(vec![11, 0, 0]);
    vm.registers[0] = 7;
    assert_eq!(vm.step(), Status::Running);
    assert_eq!(vm.pc, 2);
}

#[test]
fn jneq_jumps_when_flag_is_clear() {
    let mut vm = machine(vec![12, 0, 0]);
    vm.registers[0] = 7;
    assert_eq!(vm.step(), Status::Running);
    assert_eq!(vm.pc, 7);
}

#[test]
fn jneq_ignores_a_negative_target_when_it_does_not_jump() {
    let mut vm = machine(vec![12, 0, 0]);
    vm.registers[0] = -5;
    vm.equal_flag = true;
    assert_eq!(vm.step(), Status::Running);
    assert_eq!(vm.pc, 2);
}

#[test]
fn eq_reads_its_two_register_bytes() {
    let mut vm = machine(vec![10, 0, 1, 13, 2]);
    assert_eq!(vm.step(), Status::Running);
    assert_eq!(vm.equal_flag, true);
    assert_eq!(vm.pc, 3);
    assert_eq!(vm.step(), Status::Running);
    assert_eq!(vm.registers[2], 1);
    assert_eq!(vm.pc, 5);
}

#[test]
fn eq_at_the_end_of_the_program_stands_at_the_end() {
    let mut vm = machine(vec![10, 0, 1]);
    vm.registers[1] = 4;
    vm.equal_flag = true;
    assert_eq!(vm.step(), Status::Running);
    assert_eq!(vm.equal_flag, false);
    assert_eq!(vm.pc, 3);
    assert_eq!(vm.step(), Status::Done);
}

#[test]
fn inc_and_dec_change_by_one() {
    let mut vm = machine(vec![13, 5, 13, 5, 14, 6]);
    assert_eq!(vm.step_times(3), Status::Running);
    assert_eq!(vm.registers[5], 2);
    assert_eq!(vm.registers[6], -1);
    assert_eq!(vm.pc, 6);
}

#[test]
fn inc_and_dec_fault_at_the_limits() {
    let mut vm = machine(vec![13, 0]);
    vm.registers[0] = i32::MAX;
    assert_eq!(vm.step(), Status::Faulted(Fault::ArithmeticOverflow));
    assert_eq!(vm.registers[0], i32::MAX);
    let mut vm = machine(vec![14, 0]);
    vm.registers[0] = i32::MIN;
    assert_eq!(vm.step(), Status::Faulted(Fault::ArithmeticOverflow));
    assert_eq!(vm.registers[0], i32::MIN);
}

#[test]
fn register_out_of_range_faults_and_changes_nothing() {
    let mut vm = machine(vec![1, 200, 0, 5]);
    assert_eq!(vm.step(), Status::Faulted(Fault::RegisterOutOfRange(200)));
    assert_eq!(vm.registers, [0; 32]);
    assert_eq!(vm.pc, 0);
    assert!(vm.heap.is_empty());
    let mut vm = machine(vec![1, 32, 0, 5]);
    assert_eq!(vm.step(), Status::Faulted(Fault::RegisterOutOfRange(32)));
}

#[test]
fn first_register_out_of_range_is_reported() {
    let mut vm = machine(vec![3, 0, 40, 50]);
    assert_eq!(vm.step(), Status::Faulted(Fault::RegisterOutOfRange(40)));
    let mut vm = machine(vec![3, 0, 1, 50]);
    assert_eq!(vm.step(), Status::Faulted(Fault::RegisterOutOfRange(50)));
    let mut vm = machine(vec![10, 0, 99]);
    assert_eq!(vm.step(), Status::Faulted(Fault::RegisterOutOfRange(99)));
}

#[test]
fn missing_operands_fault_before_registers_are_looked_at() {
    let mut vm = machine(vec![1, 200, 0]);
    assert_eq!(vm.step(), Status::Faulted(Fault::ProgramOutOfBounds));
    assert_eq!(vm.pc, 0);
    for program in [vec![1u8], vec![2], vec![3, 0, 1], vec![7], vec![10, 0], vec![11], vec![13]] {
        let mut vm = machine(program);
        assert_eq!(vm.step(), Status::Faulted(Fault::ProgramOutOfBounds));
        assert_eq!(vm.pc, 0);
    }
}

#[test]
fn a_fault_repeats_on_the_next_step() {
    let mut vm = machine(vec![6, 0, 1, 2]);
    assert_eq!(vm.step(), Status::Faulted(Fault::DivisionByZero));
    assert_eq!(vm.step(), Status::Faulted(Fault::DivisionByZero));
    assert_eq!(vm.run(), Status::Faulted(Fault::DivisionByZero));
}

#[test]
fn step_times_stops_at_the_first_stop() {
    let mut vm = machine(vec![0, 99, 13, 0]);
    assert_eq!(vm.step_times(10), Status::Halted);
    assert_eq!(vm.pc, 2);
    assert_eq!(vm.registers[0], 0);
}

#[test]
fn step_times_zero_does_nothing() {
    let mut vm = machine(vec![99]);
    assert_eq!(vm.step_times(0), Status::Running);
    assert_eq!(vm.pc, 0);
}

#[test]
fn step_times_ends_after_the_given_number() {
    let mut vm = machine(vec![0, 0, 0, 0]);
    assert_eq!(vm.step_times(3), Status::Running);
    assert_eq!(vm.pc, 3);
}

#[test]
fn run_goes_on_to_the_end() {
    let mut vm = machine(vec![1, 0, 0, 5, 1, 1, 0, 6, 5, 0, 1, 2]);
    assert_eq!(vm.run(), Status::Done);
    assert_eq!(vm.registers[2], 30);
    assert_eq!(vm.pc, 12);
}

#[test]
fn run_counts_down_a_loop() {
    // r0 = 3; r1 = 0; r2 = 8 (loop start); loop: dec r0; eq r0 r1; jneq r2; hlt
    let mut vm = machine(vec![1, 0, 0, 3, 1, 2, 0, 8, 14, 0, 10, 0, 1, 12, 2, 99]);
    assert_eq!(vm.run(), Status::Halted);
    assert_eq!(vm.registers[0], 0);
    assert_eq!(vm.pc, 16);
}

#[test]
fn status_is_stop_but_for_running() {
    assert!(!Status::Running.is_stop());
    assert!(Status::Done.is_stop());
    assert!(Status::Halted.is_stop());
    assert!(Status::Illegal(7).is_stop());
    assert!(Status::Faulted(Fault::DivisionByZero).is_stop());
}

#[test]
fn program_is_never_changed_by_steps() {
    let program = vec![1, 0, 0, 3, 2, 0, 13, 0, 99];
    let mut vm = machine(program.clone());
    vm.run();
    assert_eq!(vm.program, program);
    assert_eq!(vm.heap, vec![0, 0, 0]);
}
