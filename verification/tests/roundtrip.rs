use iridium::assembler::parsing::program;
use iridium::repl::{Reply, REPL};
use iridium::vm::{Fault, Status, VM};

fn assemble(source: &str) -> Vec<u8> {
    let (rest, p) = program(source).unwrap();
    assert_eq!(rest, "");
    p.to_bytes().unwrap()
}

#[test]
fn assembled_load_sets_the_register() {
    let bytes = assemble("load $0 #100\n");
    assert_eq!(bytes, vec![1, 0, 0, 100]);
    let mut vm = VM::new();
    vm.add_bytes(bytes);
    assert_eq!(vm.run(), Status::Done);
    assert_eq!(vm.registers[0], 100);
}

#[test]
fn assembled_hlt_halts_at_once() {
    let bytes = assemble("hlt\n");
    assert_eq!(bytes, vec![99]);
    let mut vm = VM::new();
    vm.add_bytes(bytes);
    assert_eq!(vm.run(), Status::Halted);
    assert_eq!(vm.pc, 1);
}

#[test]
fn assembled_lines_run_one_after_the_other() {
    let mut vm = VM::new();
    for line in ["load $1 #500", "load $2 #7", "ADD $1 $2 $3", "inc $3", "hlt"] {
        vm.add_bytes(assemble(line));
    }
    assert_eq!(vm.run(), Status::Halted);
    assert_eq!(vm.registers[3], 508);
}

#[test]
fn assembled_register_beyond_the_machine_faults_when_run() {
    let bytes = assemble("load $200 #1\n");
    assert_eq!(bytes, vec![1, 200, 0, 1]);
    let mut vm = VM::new();
    vm.add_bytes(bytes);
    assert_eq!(vm.run(), Status::Faulted(Fault::RegisterOutOfRange(200)));
    assert_eq!(vm.registers, [0; 32]);
}

#[test]
fn assembled_unknown_mnemonic_stops_the_machine() {
    let bytes = assemble("frobnicate\n");
    assert_eq!(bytes, vec![100]);
    let mut vm = VM::new();
    vm.add_bytes(bytes);
    assert_eq!(vm.run(), Status::Illegal(100));
}

#[test]
fn assembled_eq_is_followed_by_the_next_instruction() {
    let mut vm = VM::new();
    vm.add_bytes(assemble("eq $0 $1"));
    vm.add_bytes(assemble("inc $2"));
    assert_eq!(vm.program, vec![10, 0, 1, 13, 2]);
    assert_eq!(vm.step(), Status::Running);
    assert_eq!(vm.pc, 3);
    assert_eq!(vm.equal_flag, true);
    assert_eq!(vm.run(), Status::Done);
    assert_eq!(vm.registers[2], 1);
}

#[test]
fn every_assembled_instruction_is_read_whole() {
    let lines = [
        "nop", "load $1 #7", "alloc $0", "add $1 $1 $2", "sub $2 $1 $3", "mul $2 $2 $4",
        "div $4 $1 $5", "eq $3 $1", "inc $6", "dec $7",
    ];
    let mut vm = VM::new();
    for line in lines {
        vm.add_bytes(assemble(line));
        assert_eq!(vm.step(), Status::Running);
        assert_eq!(vm.pc, vm.program.len());
    }
    assert_eq!(vm.registers[2], 14);
    assert_eq!(vm.registers[3], 7);
    assert_eq!(vm.registers[4], 196);
    assert_eq!(vm.registers[5], 203);
    assert_eq!(vm.remainder, 0);
    assert_eq!(vm.equal_flag, true);
    assert_eq!(vm.registers[6], 1);
    assert_eq!(vm.registers[7], -1);
}

#[test]
fn repl_starts_empty() {
    let repl = REPL::new(VM::new());
    assert!(repl.command_buffer.is_empty());
    assert!(repl.vm.program.is_empty());
}

#[test]
fn repl_knows_its_own_commands() {
    let mut repl = REPL::new(VM::new());
    assert_eq!(repl.execute(".program"), Reply::ShowProgram);
    assert_eq!(repl.execute(".registers"), Reply::ShowRegisters);
    assert_eq!(repl.execute(".history"), Reply::ShowHistory);
    assert_eq!(repl.execute(".quit"), Reply::Quit);
    assert!(repl.vm.program.is_empty());
    assert_eq!(repl.command_buffer, vec![".program", ".registers", ".history", ".quit"]);
}

#[test]
fn repl_assembles_and_steps() {
    let mut repl = REPL::new(VM::new());
    assert_eq!(repl.execute("load $0 #100"), Reply::Stepped(Status::Running));
    assert_eq!(repl.vm.program, vec![1, 0, 0, 100]);
    assert_eq!(repl.vm.registers[0], 100);
    assert_eq!(repl.execute("inc $0"), Reply::Stepped(Status::Running));
    assert_eq!(repl.vm.registers[0], 101);
    assert_eq!(repl.execute("hlt"), Reply::Stepped(Status::Halted));
    assert_eq!(repl.command_buffer, vec!["load $0 #100", "inc $0", "hlt"]);
}

#[test]
fn repl_leaves_the_machine_alone_on_bad_input() {
    let mut repl = REPL::new(VM::new());
    assert_eq!(repl.execute(""), Reply::Unparsed);
    assert_eq!(repl.execute("123"), Reply::Unparsed);
    assert_eq!(repl.execute(".programs"), Reply::Unparsed);
    assert_eq!(repl.execute("load $0 #99999999999"), Reply::Unparsed);
    assert_eq!(repl.execute("jmp @there"), Reply::Unencodable);
    assert!(repl.vm.program.is_empty());
    assert_eq!(repl.vm.pc, 0);
    assert_eq!(repl.command_buffer.len(), 5);
}

#[test]
fn repl_takes_a_blank_or_comment_line_as_no_program() {
    let mut repl = REPL::new(VM::new());
    for line in ["   \n", "\n", "; only a note\n", "  ; note", ";\n"] {
        assert_eq!(repl.read(line), Reply::Unparsed);
    }
    assert!(repl.vm.program.is_empty());
    assert_eq!(repl.vm.pc, 0);
    assert_eq!(repl.vm.registers, [0; 32]);
    assert!(repl.vm.heap.is_empty());
    assert_eq!(repl.command_buffer, vec!["", "", "; only a note", "; note", ";"]);
}

#[test]
fn repl_read_takes_unicode_white_space_away() {
    let mut repl = REPL::new(VM::new());
    assert_eq!(repl.read("\u{a0}\u{3000}.quit\u{2028}\u{85}\r\n"), Reply::Quit);
    assert_eq!(repl.read(".quit\n"), Reply::Quit);
    assert_eq!(repl.read("\u{200b}.quit"), Reply::Unparsed);
    assert_eq!(repl.command_buffer, vec![".quit", ".quit", "\u{200b}.quit"]);
}

#[test]
fn repl_read_trims_the_line() {
    let mut repl = REPL::new(VM::new());
    assert_eq!(repl.read("  .quit \n"), Reply::Quit);
    assert_eq!(repl.read("\tload $1 #2\r\n"), Reply::Stepped(Status::Running));
    assert_eq!(repl.command_buffer, vec![".quit", "load $1 #2"]);
    assert_eq!(repl.vm.registers[1], 2);
}

#[test]
fn white_space_is_what_trimming_takes_away() {
    let listed = |c: char| {
        let u = c as u32;
        (0x09..=0x0d).contains(&u)
            || u == 0x20
            || u == 0x85
            || u == 0xa0
            || u == 0x1680
            || (0x2000..=0x200a).contains(&u)
            || u == 0x2028
            || u == 0x2029
            || u == 0x202f
            || u == 0x205f
            || u == 0x3000
    };
    let mut repl = REPL::new(VM::new());
    let mut buffer = String::new();
    for u in 0..=0x10ffffu32 {
        if let Some(c) = char::from_u32(u) {
            buffer.clear();
            buffer.push(c);
            buffer.push_str(".quit");
            buffer.push(c);
            let taken_away = repl.read(&buffer) == Reply::Quit;
            assert_eq!(taken_away, listed(c), "U+{:04X}", u);
            repl.command_buffer.clear();
        }
    }
}
