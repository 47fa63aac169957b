//! The opcode table: the closed set of operations and their one-byte codes.

use vstd::prelude::*;
use vstd::std_specs::convert::FromSpecImpl;
use vstd::string::*;

verus! {

/// VM opcodes.
#[derive(Debug, Clone, Copy, PartialEq, Eq, Structural)]
pub enum Opcode {
    /// No operation.
    NOP,
    /// Load a number into a register.
    LOAD,
    /// Allocate a chunk of memory from the heap.
    ALLOC,
    ADD,
    SUB,
    MUL,
    DIV,
    /// Absolute jump.
    JMP,
    /// Forward relative jump.
    JMPF,
    /// Backward relative jump.
    JMPB,
    /// Equality comparison.
    EQ,
    /// Jump if equal.
    JEQ,
    /// Jump if not equal.
    JNEQ,
    /// Increment.
    INC,
    /// Decrement.
    DEC,
    /// Halt VM execution.
    HLT,
    /// Illegal opcode encountered.
    IGL,
}

/// The byte that stands for `op` in a program.
pub open spec fn encode(op: Opcode) -> u8 {
    match op {
        Opcode::NOP => 0,
        Opcode::LOAD => 1,
        Opcode::ALLOC => 2,
        Opcode::ADD => 3,
        Opcode::SUB => 4,
        Opcode::MUL => 5,
        Opcode::DIV => 6,
        Opcode::JMP => 7,
        Opcode::JMPF => 8,
        Opcode::JMPB => 9,
        Opcode::EQ => 10,
        Opcode::JEQ => 11,
        Opcode::JNEQ => 12,
        Opcode::INC => 13,
        Opcode::DEC => 14,
        Opcode::HLT => 99,
        Opcode::IGL => 100,
    }
}

/// The opcode that a program byte stands for. Every byte that is not the code
/// of an operation stands for `IGL`.
pub open spec fn decode(byte: u8) -> Opcode {
    if byte == 0 {
        Opcode::NOP
    } else if byte == 1 {
        Opcode::LOAD
    } else if byte == 2 {
        Opcode::ALLOC
    } else if byte == 3 {
        Opcode::ADD
    } else if byte == 4 {
        Opcode::SUB
    } else if byte == 5 {
        Opcode::MUL
    } else if byte == 6 {
        Opcode::DIV
    } else if byte == 7 {
        Opcode::JMP
    } else if byte == 8 {
        Opcode::JMPF
    } else if byte == 9 {
        Opcode::JMPB
    } else if byte == 10 {
        Opcode::EQ
    } else if byte == 11 {
        Opcode::JEQ
    } else if byte == 12 {
        Opcode::JNEQ
    } else if byte == 13 {
        Opcode::INC
    } else if byte == 14 {
        Opcode::DEC
    } else if byte == 99 {
        Opcode::HLT
    } else {
        Opcode::IGL
    }
}

/// Whether `byte` is the code of an operation other than `IGL`.
pub open spec fn is_opcode_byte(byte: u8) -> bool {
    byte <= 14 || byte == 99
}

impl From<u8> for Opcode {
    fn from(source: u8) -> (op: Opcode) {
        match source {
            0 => Opcode::NOP,
            1 => Opcode::LOAD,
            2 => Opcode::ALLOC,
            3 => Opcode::ADD,
            4 => Opcode::SUB,
            5 => Opcode::MUL,
            6 => Opcode::DIV,
            7 => Opcode::JMP,
            8 => Opcode::JMPF,
            9 => Opcode::JMPB,
            10 => Opcode::EQ,
            11 => Opcode::JEQ,
            12 => Opcode::JNEQ,
            13 => Opcode::INC,
            14 => Opcode::DEC,
            99 => Opcode::HLT,
            _ => Opcode::IGL,
        }
    }
}

impl FromSpecImpl<u8> for Opcode {
    open spec fn obeys_from_spec() -> bool {
        true
    }

    open spec fn from_spec(source: u8) -> Opcode {
        decode(source)
    }
}

impl From<Opcode> for u8 {
    fn from(source: Opcode) -> (byte: u8) {
        match source {
            Opcode::NOP => 0,
            Opcode::LOAD => 1,
            Opcode::ALLOC => 2,
            Opcode::ADD => 3,
            Opcode::SUB => 4,
            Opcode::MUL => 5,
            Opcode::DIV => 6,
            Opcode::JMP => 7,
            Opcode::JMPF => 8,
            Opcode::JMPB => 9,
            Opcode::EQ => 10,
            Opcode::JEQ => 11,
            Opcode::JNEQ => 12,
            Opcode::INC => 13,
            Opcode::DEC => 14,
            Opcode::HLT => 99,
            Opcode::IGL => 100,
        }
    }
}

impl FromSpecImpl<Opcode> for u8 {
    open spec fn obeys_from_spec() -> bool {
        true
    }

    open spec fn from_spec(source: Opcode) -> u8 {
        encode(source)
    }
}

/// The lower-case form of an ASCII capital letter; any other character
/// itself.
pub open spec fn lower(c: char) -> char {
    if 'A' <= c && c <= 'Z' {
        ((c as u8) + 32) as char
    } else {
        c
    }
}

/// `s` with every ASCII capital letter in lower case.
pub open spec fn lowered(s: Seq<char>) -> Seq<char> {
    Seq::new(s.len(), |i: int| lower(s[i]))
}

/// The opcode that a mnemonic names. Capital and small letters count alike;
/// a word that names no operation stands for `IGL`.
pub open spec fn mnemonic_opcode(name: Seq<char>) -> Opcode {
    let word = lowered(name);
    if word == "nop"@ {
        Opcode::NOP
    } else if word == "load"@ {
        Opcode::LOAD
    } else if word == "alloc"@ {
        Opcode::ALLOC
    } else if word == "add"@ {
        Opcode::ADD
    } else if word == "sub"@ {
        Opcode::SUB
    } else if word == "mul"@ {
        Opcode::MUL
    } else if word == "div"@ {
        Opcode::DIV
    } else if word == "jmp"@ {
        Opcode::JMP
    } else if word == "jmpf"@ {
        Opcode::JMPF
    } else if word == "jmpb"@ {
        Opcode::JMPB
    } else if word == "eq"@ {
        Opcode::EQ
    } else if word == "jeq"@ {
        Opcode::JEQ
    } else if word == "jneq"@ {
        Opcode::JNEQ
    } else if word == "inc"@ {
        Opcode::INC
    } else if word == "dec"@ {
        Opcode::DEC
    } else if word == "hlt"@ {
        Opcode::HLT
    } else {
        Opcode::IGL
    }
}

/// Length of the longest mnemonic.
pub const MNEMONIC_MAX: usize = 5;

/// No mnemonic is longer than `MNEMONIC_MAX` characters.
proof fn lemma_mnemonic_lengths()
    ensures
        "nop"@.len() <= MNEMONIC_MAX,
        "load"@.len() <= MNEMONIC_MAX,
        "alloc"@.len() <= MNEMONIC_MAX,
        "add"@.len() <= MNEMONIC_MAX,
        "sub"@.len() <= MNEMONIC_MAX,
        "mul"@.len() <= MNEMONIC_MAX,
        "div"@.len() <= MNEMONIC_MAX,
        "jmp"@.len() <= MNEMONIC_MAX,
        "jmpf"@.len() <= MNEMONIC_MAX,
        "jmpb"@.len() <= MNEMONIC_MAX,
        "eq"@.len() <= MNEMONIC_MAX,
        "jeq"@.len() <= MNEMONIC_MAX,
        "jneq"@.len() <= MNEMONIC_MAX,
        "inc"@.len() <= MNEMONIC_MAX,
        "dec"@.len() <= MNEMONIC_MAX,
        "hlt"@.len() <= MNEMONIC_MAX,
{
    reveal_strlit("nop");
    reveal_strlit("load");
    reveal_strlit("alloc");
    reveal_strlit("add");
    reveal_strlit("sub");
    reveal_strlit("mul");
    reveal_strlit("div");
    reveal_strlit("jmp");
    reveal_strlit("jmpf");
    reveal_strlit("jmpb");
    reveal_strlit("eq");
    reveal_strlit("jeq");
    reveal_strlit("jneq");
    reveal_strlit("inc");
    reveal_strlit("dec");
    reveal_strlit("hlt");
}

/// The lower-case form of an ASCII capital letter; any other character
/// itself.
fn to_lower(c: char) -> (l: char)
    ensures
        l == lower(c),
{
    if 'A' <= c && c <= 'Z' {
        ((c as u8) + 32) as char
    } else {
        c
    }
}

/// Whether `word` holds the characters of `text`.
fn spells(word: &Vec<char>, text: &str) -> (b: bool)
    ensures
        b == (word@ == text@),
{
    let n = text.unicode_len();
    if word.len() != n {
        return false;
    }
    let mut i: usize = 0;
    while i < n
        invariant
            i <= n,
            n == text@.len(),
            n == word@.len(),
            forall|k: int| 0 <= k < i ==> word@[k] == text@[k],
        decreases n - i,
    {
        if word[i] != text.get_char(i) {
            return false;
        }
        i += 1;
    }
    assert(word@ =~= text@);
    true
}

impl<'a> From<&'a str> for Opcode {
    fn from(source: &'a str) -> (op: Opcode) {
        let n = source.unicode_len();
        proof {
            lemma_mnemonic_lengths();
        }
        if n > MNEMONIC_MAX {
            return Opcode::IGL;
        }
        let mut word: Vec<char> = Vec::new();
        let mut i: usize = 0;
        while i < n
            invariant
                i <= n,
                n == source@.len(),
                word@ == lowered(source@.take(i as int)),
            decreases n - i,
        {
            word.push(to_lower(source.get_char(i)));
            assert(word@ =~= lowered(source@.take(i + 1)));
            i += 1;
        }
        assert(source@.take(n as int) =~= source@);
        if spells(&word, "nop") {
            Opcode::NOP
        } else if spells(&word, "load") {
            Opcode::LOAD
        } else if spells(&word, "alloc") {
            Opcode::ALLOC
        } else if spells(&word, "add") {
            Opcode::ADD
        } else if spells(&word, "sub") {
            Opcode::SUB
        } else if spells(&word, "mul") {
            Opcode::MUL
        } else if spells(&word, "div") {
            Opcode::DIV
        } else if spells(&word, "jmp") {
            Opcode::JMP
        } else if spells(&word, "jmpf") {
            Opcode::JMPF
        } else if spells(&word, "jmpb") {
            Opcode::JMPB
        } else if spells(&word, "eq") {
            Opcode::EQ
        } else if spells(&word, "jeq") {
            Opcode::JEQ
        } else if spells(&word, "jneq") {
            Opcode::JNEQ
        } else if spells(&word, "inc") {
            Opcode::INC
        } else if spells(&word, "dec") {
            Opcode::DEC
        } else if spells(&word, "hlt") {
            Opcode::HLT
        } else {
            Opcode::IGL
        }
    }
}

impl<'a> FromSpecImpl<&'a str> for Opcode {
    open spec fn obeys_from_spec() -> bool {
        true
    }

    open spec fn from_spec(source: &'a str) -> Opcode {
        mnemonic_opcode(source@)
    }
}

/// Decoding undoes encoding: every operation other than `IGL` comes back from
/// its own code, and so does `IGL` from the code reserved for it.
pub proof fn lemma_decode_encode(op: Opcode)
    ensures
        decode(encode(op)) == op,
        op != Opcode::IGL ==> is_opcode_byte(encode(op)),
{
}

/// A byte that is the code of no operation decodes to `IGL`, and no other
/// byte does.
pub proof fn lemma_decode_unknown(byte: u8)
    ensures
        !is_opcode_byte(byte) <==> decode(byte) == Opcode::IGL,
        is_opcode_byte(byte) ==> encode(decode(byte)) == byte,
{
}

/// The name of an opcode, as it is written in capital letters.
pub open spec fn opcode_name(op: Opcode) -> Seq<char> {
    match op {
        Opcode::NOP => "NOP"@,
        Opcode::LOAD => "LOAD"@,
        Opcode::ALLOC => "ALLOC"@,
        Opcode::ADD => "ADD"@,
        Opcode::SUB => "SUB"@,
        Opcode::MUL => "MUL"@,
        Opcode::DIV => "DIV"@,
        Opcode::JMP => "JMP"@,
        Opcode::JMPF => "JMPF"@,
        Opcode::JMPB => "JMPB"@,
        Opcode::EQ => "EQ"@,
        Opcode::JEQ => "JEQ"@,
        Opcode::JNEQ => "JNEQ"@,
        Opcode::INC => "INC"@,
        Opcode::DEC => "DEC"@,
        Opcode::HLT => "HLT"@,
        Opcode::IGL => "IGL"@,
    }
}

impl Opcode {
    /// The name of the opcode, in capital letters.
    pub fn name(&self) -> (text: &'static str)
        ensures
            text@ == opcode_name(*self),
    {
        match self {
            Opcode::NOP => "NOP",
            Opcode::LOAD => "LOAD",
            Opcode::ALLOC => "ALLOC",
            Opcode::ADD => "ADD",
            Opcode::SUB => "SUB",
            Opcode::MUL => "MUL",
            Opcode::DIV => "DIV",
            Opcode::JMP => "JMP",
            Opcode::JMPF => "JMPF",
            Opcode::JMPB => "JMPB",
            Opcode::EQ => "EQ",
            Opcode::JEQ => "JEQ",
            Opcode::JNEQ => "JNEQ",
            Opcode::INC => "INC",
            Opcode::DEC => "DEC",
            Opcode::HLT => "HLT",
            Opcode::IGL => "IGL",
        }
    }
}

/// Every opcode but `IGL` is named by its own name, in capital or in small
/// letters.
pub proof fn lemma_name_is_mnemonic(op: Opcode)
    ensures
        op != Opcode::IGL ==> mnemonic_opcode(opcode_name(op)) == op,
        op != Opcode::IGL ==> mnemonic_opcode(lowered(opcode_name(op))) == op,
{
    reveal_strlit("nop");
    reveal_strlit("load");
    reveal_strlit("alloc");
    reveal_strlit("add");
    reveal_strlit("sub");
    reveal_strlit("mul");
    reveal_strlit("div");
    reveal_strlit("jmp");
    reveal_strlit("jmpf");
    reveal_strlit("jmpb");
    reveal_strlit("eq");
    reveal_strlit("jeq");
    reveal_strlit("jneq");
    reveal_strlit("inc");
    reveal_strlit("dec");
    reveal_strlit("hlt");
    reveal_strlit("NOP");
    reveal_strlit("LOAD");
    reveal_strlit("ALLOC");
    reveal_strlit("ADD");
    reveal_strlit("SUB");
    reveal_strlit("MUL");
    reveal_strlit("DIV");
    reveal_strlit("JMP");
    reveal_strlit("JMPF");
    reveal_strlit("JMPB");
    reveal_strlit("EQ");
    reveal_strlit("JEQ");
    reveal_strlit("JNEQ");
    reveal_strlit("INC");
    reveal_strlit("DEC");
    reveal_strlit("HLT");
    let word = lowered(opcode_name(op));
    assert(lowered(word) =~= word);
    assert("nop"@[0] == 'n' && "nop"@[1] == 'o');
    assert("load"@[0] == 'l' && "load"@[1] == 'o' && "load"@[3] == 'd');
    assert("alloc"@[0] == 'a' && "alloc"@[1] == 'l');
    assert("add"@[0] == 'a' && "add"@[1] == 'd');
    assert("sub"@[0] == 's' && "sub"@[1] == 'u');
    assert("mul"@[0] == 'm' && "mul"@[1] == 'u');
    assert("div"@[0] == 'd' && "div"@[1] == 'i');
    assert("jmp"@[0] == 'j' && "jmp"@[1] == 'm');
    assert("jmpf"@[0] == 'j' && "jmpf"@[1] == 'm' && "jmpf"@[3] == 'f');
    assert("jmpb"@[0] == 'j' && "jmpb"@[1] == 'm' && "jmpb"@[3] == 'b');
    assert("eq"@[0] == 'e' && "eq"@[1] == 'q');
    assert("jeq"@[0] == 'j' && "jeq"@[1] == 'e');
    assert("jneq"@[0] == 'j' && "jneq"@[1] == 'n' && "jneq"@[3] == 'q');
    assert("inc"@[0] == 'i' && "inc"@[1] == 'n');
    assert("dec"@[0] == 'd' && "dec"@[1] == 'e');
    assert("hlt"@[0] == 'h' && "hlt"@[1] == 'l');
    match op {
        Opcode::NOP => assert(word =~= "nop"@),
        Opcode::LOAD => assert(word =~= "load"@),
        Opcode::ALLOC => assert(word =~= "alloc"@),
        Opcode::ADD => assert(word =~= "add"@),
        Opcode::SUB => assert(word =~= "sub"@),
        Opcode::MUL => assert(word =~= "mul"@),
        Opcode::DIV => assert(word =~= "div"@),
        Opcode::JMP => assert(word =~= "jmp"@),
        Opcode::JMPF => assert(word =~= "jmpf"@),
        Opcode::JMPB => assert(word =~= "jmpb"@),
        Opcode::EQ => assert(word =~= "eq"@),
        Opcode::JEQ => assert(word =~= "jeq"@),
        Opcode::JNEQ => assert(word =~= "jneq"@),
        Opcode::INC => assert(word =~= "inc"@),
        Opcode::DEC => assert(word =~= "dec"@),
        Opcode::HLT => assert(word =~= "hlt"@),
        Opcode::IGL => {},
    }
}

} // verus!
