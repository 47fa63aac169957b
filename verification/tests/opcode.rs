use iridium::instruction::Opcode;

const ALL: [Opcode; 17] = [
    Opcode::NOP,
    Opcode::LOAD,
    Opcode::ALLOC,
    Opcode::ADD,
    Opcode::SUB,
    Opcode::MUL,
    Opcode::DIV,
    Opcode::JMP,
    Opcode::JMPF,
    Opcode::JMPB,
    Opcode::EQ,
    Opcode::JEQ,
    Opcode::JNEQ,
    Opcode::INC,
    Opcode::DEC,
    Opcode::HLT,
    Opcode::IGL,
];

#[test]
fn test_opcode_from_str() {
    let opcode = Opcode::from("load");
    assert_eq!(opcode, Opcode::LOAD);
    let opcode = Opcode::from("illegal");
    assert_eq!(opcode, Opcode::IGL);
}

#[test]
fn test_create_hlt() {
    let opcode = Opcode::HLT;
    assert_eq!(opcode, Opcode::HLT);
}

#[test]
fn opcode_bytes_are_the_table() {
    let expected: [u8; 17] = [0, 1, 2, 3, 4, 5, 6, 7, 8, 9, 10, 11, 12, 13, 14, 99, 100];
    for (op, byte) in ALL.iter().zip(expected.iter()) {
        assert_eq!(u8::from(*op), *byte);
    }
}

#[test]
fn decode_undoes_encode() {
    for op in ALL.iter() {
        assert_eq!(Opcode::from(u8::from(*op)), *op);
    }
}

#[test]
fn unknown_bytes_decode_to_illegal() {
    for byte in 0..=255u8 {
        let known = byte <= 14 || byte == 99;
        assert_eq!(Opcode::from(byte) == Opcode::IGL, !known);
    }
}

#[test]
fn mnemonics_ignore_case() {
    assert_eq!(Opcode::from("LOAD"), Opcode::LOAD);
    assert_eq!(Opcode::from("LoAd"), Opcode::LOAD);
    assert_eq!(Opcode::from("Hlt"), Opcode::HLT);
    assert_eq!(Opcode::from("JNEQ"), Opcode::JNEQ);
}

#[test]
fn every_mnemonic_names_its_opcode() {
    let words = [
        "nop", "load", "alloc", "add", "sub", "mul", "div", "jmp", "jmpf", "jmpb", "eq", "jeq",
        "jneq", "inc", "dec", "hlt",
    ];
    for (word, op) in words.iter().zip(ALL.iter()) {
        assert_eq!(Opcode::from(*word), *op);
        assert_eq!(Opcode::from(op.name()), *op);
    }
}

#[test]
fn words_that_name_nothing_are_illegal() {
    assert_eq!(Opcode::from(""), Opcode::IGL);
    assert_eq!(Opcode::from("igl"), Opcode::IGL);
    assert_eq!(Opcode::from("loads"), Opcode::IGL);
    assert_eq!(Opcode::from("lo"), Opcode::IGL);
    assert_eq!(Opcode::from("allocate"), Opcode::IGL);
    assert_eq!(Opcode::from("l\u{f6}ad"), Opcode::IGL);
}

#[test]
fn opcode_names_are_capital() {
    assert_eq!(Opcode::LOAD.name(), "LOAD");
    assert_eq!(Opcode::IGL.name(), "IGL");
    assert_eq!(Opcode::JMPB.name(), "JMPB");
}
