//! The interactive shell's decisions: what a line of input does to the
//! session, and what the shell has to show for it.
//!
//! Reading the line and printing belong to the program around this library;
//! it hands each line to [`REPL::read`] and acts on the [`Reply`].

use crate::assembler::lexer::{after_run, lemma_run_len, run_len, CharClass};
use crate::assembler::parsing::{
    assembled, is_blank, is_comment_only, lemma_blank_is_no_program,
    lemma_comment_only_is_no_program, program, program_spec,
};
use crate::vm::{Machine, Status, VM};
use vstd::prelude::*;
use vstd::string::*;
use vstd::utf8::*;

verus! {

/// The state of an interactive session.
pub struct REPL {
    /// The machine that the session drives.
    pub vm: VM,
    /// The commands entered so far, oldest first.
    pub command_buffer: Vec<String>,
}

/// A session as a mathematical value.
pub struct Session {
    pub vm: Machine,
    pub history: Seq<Seq<char>>,
}

/// What the shell has to do after a command.
#[derive(Debug, Clone, Copy, PartialEq, Eq, Structural)]
pub enum Reply {
    /// Show the bytes of the machine's program.
    ShowProgram,
    /// Show the machine's registers.
    ShowRegisters,
    /// Show the commands entered so far.
    ShowHistory,
    /// End the session.
    Quit,
    /// The command is no program; the machine was left alone.
    Unparsed,
    /// The command is a program that cannot be put into bytes; the machine
    /// was left alone.
    Unencodable,
    /// The command was assembled and added to the machine's program, and
    /// the machine made a step, which came to the status given.
    Stepped(Status),
}

/// The texts of the commands.
pub open spec fn texts(commands: Seq<String>) -> Seq<Seq<char>> {
    Seq::new(commands.len(), |i: int| commands[i]@)
}

impl View for REPL {
    type V = Session;

    open spec fn view(&self) -> Session {
        Session { vm: self.vm@, history: texts(self.command_buffer@) }
    }
}

impl Session {
    /// What the command `cmd` does to the session, and what the shell has
    /// to do after it. Every command is noted in the history. A command
    /// that is none of the shell's own is read as a program; its bytes are
    /// added to the machine's program, and the machine makes a step.
    pub open spec fn respond(self, cmd: Seq<char>) -> (Session, Reply) {
        let noted = Session { history: self.history.push(cmd), ..self };
        if cmd == ".program"@ {
            (noted, Reply::ShowProgram)
        } else if cmd == ".registers"@ {
            (noted, Reply::ShowRegisters)
        } else if cmd == ".history"@ {
            (noted, Reply::ShowHistory)
        } else if cmd == ".quit"@ {
            (noted, Reply::Quit)
        } else {
            match program_spec(cmd) {
                Err(_) => (noted, Reply::Unparsed),
                Ok((_, instructions)) => match assembled(instructions) {
                    Ok(bytes) => {
                        let loaded = Machine { program: self.vm.program + bytes, ..self.vm };
                        (Session { vm: loaded.step().0, ..noted }, Reply::Stepped(loaded.step().1))
                    },
                    Err(_) => (noted, Reply::Unencodable),
                },
            }
        }
    }
}

impl Session {
    /// A command that holds white space alone, or a comment and nothing
    /// else, holds no instruction: it is noted in the history and answered
    /// as no program, and the machine is left as it was.
    pub proof fn lemma_no_instruction_is_unparsed(self, cmd: Seq<char>)
        requires
            is_blank(cmd) || is_comment_only(cmd),
        ensures
            self.respond(cmd) == (
                Session { history: self.history.push(cmd), ..self },
                Reply::Unparsed,
            ),
    {
        reveal_strlit(".program");
        reveal_strlit(".registers");
        reveal_strlit(".history");
        reveal_strlit(".quit");
        assert(".program"@[0] == '.' && ".registers"@[0] == '.' && ".history"@[0] == '.'
            && ".quit"@[0] == '.');
        if is_blank(cmd) {
            lemma_blank_is_no_program(cmd);
            if cmd.len() > 0 {
                assert(CharClass::Multispace.holds(cmd[0]));
            }
        } else {
            lemma_comment_only_is_no_program(cmd);
            lemma_run_len(cmd, CharClass::Multispace);
            if run_len(cmd, CharClass::Multispace) == 0 {
                assert(after_run(cmd, CharClass::Multispace) =~= cmd);
                assert(cmd[0] == ';');
            } else {
                assert(CharClass::Multispace.holds(cmd[0]));
            }
        }
    }

    /// A line that holds `.quit` between white space ends the session,
    /// whatever the white space: the line ending that the terminal hands
    /// over with the line is of no account.
    pub proof fn lemma_quit_line(self, front: Seq<char>, back: Seq<char>)
        requires
            all_white_space(front),
            all_white_space(back),
        ensures
            self.respond(trimmed(front + ".quit"@ + back)).1 == Reply::Quit,
    {
        reveal_strlit(".program");
        reveal_strlit(".registers");
        reveal_strlit(".history");
        reveal_strlit(".quit");
        let text = ".quit"@;
        assert(text[0] == '.' && text.last() == 't');
        lemma_trimmed_is(front, text, back);
    }
}

/// Whether `c` is white space: a character with Unicode's property
/// `White_Space`.
pub open spec fn is_white_space(c: char) -> bool {
    let u = c as u32;
    (0x09 <= u && u <= 0x0d) || u == 0x20 || u == 0x85 || u == 0xa0 || u == 0x1680 || (0x2000
        <= u && u <= 0x200a) || u == 0x2028 || u == 0x2029 || u == 0x202f || u == 0x205f || u
        == 0x3000
}

/// Number of white-space characters at the front of `s`.
pub open spec fn leading_white_space(s: Seq<char>) -> nat
    decreases s.len(),
{
    if s.len() == 0 || !is_white_space(s[0]) {
        0
    } else {
        1 + leading_white_space(s.drop_first())
    }
}

/// Number of white-space characters at the end of `s`.
pub open spec fn trailing_white_space(s: Seq<char>) -> nat
    decreases s.len(),
{
    if s.len() == 0 || !is_white_space(s.last()) {
        0
    } else {
        1 + trailing_white_space(s.drop_last())
    }
}

/// `line` without the white space at its two ends.
pub open spec fn trimmed(line: Seq<char>) -> Seq<char> {
    let rest = line.skip(leading_white_space(line) as int);
    rest.take(rest.len() - trailing_white_space(rest))
}

/// White space that ends the text, or stands before a character that is
/// none, is the white space at the front of the text.
pub proof fn lemma_leading_is(s: Seq<char>, n: nat)
    requires
        n <= s.len(),
        forall|i: int| 0 <= i < n ==> is_white_space(#[trigger] s[i]),
        n < s.len() ==> !is_white_space(s[n as int]),
    ensures
        leading_white_space(s) == n,
    decreases n,
{
    if n > 0 {
        let tail = s.drop_first();
        assert(is_white_space(s[0]));
        assert forall|i: int| 0 <= i < n - 1 implies is_white_space(#[trigger] tail[i]) by {
            assert(tail[i] == s[i + 1]);
        }
        if n < s.len() {
            assert(tail[n - 1] == s[n as int]);
        }
        lemma_leading_is(tail, (n - 1) as nat);
    }
}

/// White space that begins the text, or stands behind a character that is
/// none, is the white space at the end of the text.
pub proof fn lemma_trailing_is(s: Seq<char>, n: nat)
    requires
        n <= s.len(),
        forall|i: int| s.len() - n <= i < s.len() ==> is_white_space(#[trigger] s[i]),
        n < s.len() ==> !is_white_space(s[s.len() - n - 1]),
    ensures
        trailing_white_space(s) == n,
    decreases n,
{
    if n > 0 {
        let front = s.drop_last();
        assert(is_white_space(s[s.len() - 1]));
        assert forall|i: int| front.len() - (n - 1) <= i < front.len() implies is_white_space(
            #[trigger] front[i],
        ) by {
            assert(front[i] == s[i]);
        }
        if n < s.len() {
            assert(front[front.len() - (n - 1) - 1] == s[s.len() - n - 1]);
        }
        lemma_trailing_is(front, (n - 1) as nat);
    }
}

/// Whether `s` holds white space only.
pub open spec fn all_white_space(s: Seq<char>) -> bool {
    forall|i: int| 0 <= i < s.len() ==> is_white_space(#[trigger] s[i])
}

/// A text that neither begins nor ends with white space, with white space
/// before and behind it, is what is left of the whole when the white space
/// at its two ends is taken away. So is the empty text.
pub proof fn lemma_trimmed_is(front: Seq<char>, text: Seq<char>, back: Seq<char>)
    requires
        all_white_space(front),
        all_white_space(back),
        text.len() > 0 ==> !is_white_space(text[0]) && !is_white_space(text.last()),
    ensures
        trimmed(front + text + back) == text,
{
    let line = front + text + back;
    if text.len() == 0 {
        assert forall|i: int| 0 <= i < line.len() implies is_white_space(#[trigger] line[i]) by {
            if i < front.len() {
                assert(line[i] == front[i]);
            } else {
                assert(line[i] == back[i - front.len()]);
            }
        }
        lemma_leading_is(line, line.len());
        let rest = line.skip(line.len() as int);
        assert(rest =~= Seq::<char>::empty());
        assert(trimmed(line) =~= text);
    } else {
        assert forall|i: int| 0 <= i < front.len() implies is_white_space(#[trigger] line[i]) by {
            assert(line[i] == front[i]);
        }
        assert(line[front.len() as int] == text[0]);
        lemma_leading_is(line, front.len());
        let rest = line.skip(front.len() as int);
        assert(rest =~= text + back);
        assert forall|i: int| rest.len() - back.len() <= i < rest.len() implies is_white_space(
            #[trigger] rest[i],
        ) by {
            assert(rest[i] == back[i - text.len()]);
        }
        assert(rest[rest.len() - back.len() - 1] == text.last());
        lemma_trailing_is(rest, back.len());
        assert(rest.take(rest.len() - back.len()) =~= text);
    }
}

/// The line without the white space at its two ends.
///
/// This is `str::trim` of the standard library, which removes what Unicode
/// calls white space (the characters with the property `White_Space`) from
/// both ends of a string.
#[verifier::external_body]
fn trim<'a>(line: &'a str) -> (cmd: &'a str)
    ensures
        cmd@ == trimmed(line@),
{
    line.trim()
}

/// Whether two strings hold the same text.
fn same_text(a: &str, b: &str) -> (same: bool)
    ensures
        same == (a@ == b@),
{
    let left = a.as_bytes();
    let right = b.as_bytes();
    proof {
        encode_utf8_decode_utf8(a@);
        encode_utf8_decode_utf8(b@);
    }
    if left.len() != right.len() {
        return false;
    }
    let mut i: usize = 0;
    while i < left.len()
        invariant
            i <= left.len(),
            left.len() == right.len(),
            left@ == a.spec_bytes(),
            right@ == b.spec_bytes(),
            decode_utf8(a.spec_bytes()) == a@,
            decode_utf8(b.spec_bytes()) == b@,
            forall|k: int| 0 <= k < i ==> left@[k] == right@[k],
        decreases left.len() - i,
    {
        if left[i] != right[i] {
            return false;
        }
        i += 1;
    }
    assert(left@ =~= right@);
    true
}

impl REPL {
    /// Creates a new REPL.
    pub fn new(vm: VM) -> (repl: REPL)
        ensures
            repl@ == (Session { vm: vm@, history: Seq::empty() }),
    {
        let repl = REPL { vm, command_buffer: Vec::new() };
        assert(texts(repl.command_buffer@) =~= Seq::<Seq<char>>::empty());
        repl
    }

    /// Takes a line of input as it was typed: the command is the line
    /// without the white space at its two ends.
    pub fn read(&mut self, line: &str) -> (reply: Reply)
        ensures
            (final(self)@, reply) == old(self)@.respond(trimmed(line@)),
    {
        self.execute(trim(line))
    }

    /// Carries out a command.
    pub fn execute(&mut self, cmd: &str) -> (reply: Reply)
        ensures
            (final(self)@, reply) == old(self)@.respond(cmd@),
    {
        let ghost before = self@;
        self.command_buffer.push(cmd.to_owned());
        assert(texts(self.command_buffer@) =~= before.history.push(cmd@));
        if same_text(cmd, ".program") {
            Reply::ShowProgram
        } else if same_text(cmd, ".registers") {
            Reply::ShowRegisters
        } else if same_text(cmd, ".history") {
            Reply::ShowHistory
        } else if same_text(cmd, ".quit") {
            Reply::Quit
        } else {
            match program(cmd) {
                Ok((_, read)) => match read.to_bytes() {
                    Ok(bytes) => {
                        self.vm.add_bytes(bytes);
                        Reply::Stepped(self.vm.step())
                    },
                    Err(_) => Reply::Unencodable,
                },
                Err(_) => Reply::Unparsed,
            }
        }
    }
}

} // verus!
