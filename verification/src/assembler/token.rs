//! The lexical units of assembly text.

use crate::assembler::parsing::decimal::{decimal_digits, decimal_text};
use crate::instruction::{opcode_name, Opcode};
use vstd::prelude::*;
use vstd::string::*;

verus! {

/// One lexical unit of assembly source.
#[derive(Debug, PartialEq)]
pub enum Token {
    Op { code: Opcode },
    Register { reg_num: u8 },
    Number { value: i32 },
    LabelDecl { name: String },
    LabelUsage { name: String },
    Directive { name: String },
    Comment,
}

/// A token as a mathematical value: names are sequences of characters.
pub enum TokenView {
    Op { code: Opcode },
    Register { reg_num: u8 },
    Number { value: i32 },
    LabelDecl { name: Seq<char> },
    LabelUsage { name: Seq<char> },
    Directive { name: Seq<char> },
    Comment,
}

impl View for Token {
    type V = TokenView;

    open spec fn view(&self) -> TokenView {
        match self {
            Token::Op { code } => TokenView::Op { code: *code },
            Token::Register { reg_num } => TokenView::Register { reg_num: *reg_num },
            Token::Number { value } => TokenView::Number { value: *value },
            Token::LabelDecl { name } => TokenView::LabelDecl { name: name@ },
            Token::LabelUsage { name } => TokenView::LabelUsage { name: name@ },
            Token::Directive { name } => TokenView::Directive { name: name@ },
            Token::Comment => TokenView::Comment,
        }
    }
}

/// The view of a token that may be absent.
pub open spec fn view_of(token: Option<Token>) -> Option<TokenView> {
    match token {
        Some(t) => Some(t@),
        None => None,
    }
}

/// A copy of a token that may be absent.
pub fn clone_slot(slot: &Option<Token>) -> (copy: Option<Token>)
    ensures
        view_of(copy) == view_of(*slot),
{
    match slot {
        Some(token) => Some(token.clone()),
        None => None,
    }
}

impl Clone for Token {
    fn clone(&self) -> (copy: Token)
        ensures
            copy@ == self@,
    {
        match self {
            Token::Op { code } => Token::Op { code: *code },
            Token::Register { reg_num } => Token::Register { reg_num: *reg_num },
            Token::Number { value } => Token::Number { value: *value },
            Token::LabelDecl { name } => Token::LabelDecl { name: name.clone() },
            Token::LabelUsage { name } => Token::LabelUsage { name: name.clone() },
            Token::Directive { name } => Token::Directive { name: name.clone() },
            Token::Comment => Token::Comment,
        }
    }
}

/// The low 16 bits of a number, as it stands in an instruction.
pub open spec fn immediate_bits(value: i32) -> int {
    value as int % 0x1_0000
}

impl TokenView {
    /// The bytes that stand for this token as an operand: a register's
    /// index, or the low 16 bits of a number with the high byte first.
    /// Other tokens cannot stand as operands.
    pub open spec fn operand_bytes(self) -> Option<Seq<u8>> {
        match self {
            TokenView::Register { reg_num } => Some(seq![reg_num]),
            TokenView::Number { value } => Some(
                seq![
                    (immediate_bits(value) / 256) as u8,
                    (immediate_bits(value) % 256) as u8,
                ],
            ),
            _ => None,
        }
    }
}

impl TokenView {
    /// The token as it is shown in messages.
    pub open spec fn text(self) -> Seq<char> {
        match self {
            TokenView::Op { code } => opcode_name(code),
            TokenView::Register { reg_num } => seq!['$'] + decimal_digits(reg_num as nat),
            TokenView::Number { value } => if value < 0 {
                seq!['-'] + decimal_digits((-value) as nat)
            } else {
                decimal_digits(value as nat)
            },
            TokenView::LabelDecl { name } => seq![':'] + name,
            TokenView::LabelUsage { name } => seq!['@'] + name,
            TokenView::Directive { name } => seq!['.'] + name,
            TokenView::Comment => Seq::empty(),
        }
    }
}

impl Token {
    /// The token as it is shown in messages.
    pub fn to_string(&self) -> (text: String)
        ensures
            text@ == self@.text(),
    {
        proof {
            reveal_strlit("$");
            reveal_strlit("-");
            reveal_strlit(":");
            reveal_strlit("@");
            reveal_strlit(".");
            reveal_strlit("");
        }
        let text = match self {
            Token::Op { code } => String::from_str(code.name()),
            Token::Register { reg_num } => String::from_str("$").concat(
                decimal_text(*reg_num as u32).as_str(),
            ),
            Token::Number { value } => {
                if *value < 0 {
                    String::from_str("-").concat(
                        decimal_text((-(*value as i64)) as u32).as_str(),
                    )
                } else {
                    decimal_text(*value as u32)
                }
            },
            Token::LabelDecl { name } => String::from_str(":").concat(name.as_str()),
            Token::LabelUsage { name } => String::from_str("@").concat(name.as_str()),
            Token::Directive { name } => String::from_str(".").concat(name.as_str()),
            Token::Comment => String::from_str(""),
        };
        assert(text@ =~= self@.text());
        text
    }
}

/// A token stands where an operand is expected and cannot be one.
#[derive(Debug)]
pub enum TokenError {
    UnexpectedOpcode(Token),
}

impl Clone for TokenError {
    fn clone(&self) -> (copy: TokenError)
        ensures
            copy.token()@ == self.token()@,
    {
        match self {
            TokenError::UnexpectedOpcode(token) => TokenError::UnexpectedOpcode(token.clone()),
        }
    }
}

impl TokenError {
    /// The token that was refused.
    pub open spec fn token(self) -> Token {
        match self {
            TokenError::UnexpectedOpcode(token) => token,
        }
    }

    /// What went wrong, in words.
    pub fn to_string(&self) -> (text: String)
        ensures
            text@ == "Unexpected opcode found in operand field: "@ + self.token()@.text(),
    {
        match self {
            TokenError::UnexpectedOpcode(token) => String::from_str(
                "Unexpected opcode found in operand field: ",
            ).concat(token.to_string().as_str()),
        }
    }
}

impl Token {
    /// The bytes that stand for this token as an operand.
    pub fn operand_bytes(&self) -> (r: Result<Vec<u8>, TokenError>)
        ensures
            match r {
                Ok(bytes) => self@.operand_bytes() == Some(bytes@),
                Err(e) => self@.operand_bytes().is_none() && e.token()@ == self@,
            },
    {
        let mut bytes = Vec::new();
        match self {
            Token::Register { reg_num } => {
                bytes.push(*reg_num);
            },
            Token::Number { value } => {
                let converted: u16 = #[verifier::truncate] (*value as u16);
                assert(converted as int == immediate_bits(*value)) by (bit_vector)
                    requires
                        converted == #[verifier::truncate] (*value as u16),
                ;
                let high = (converted / 256) as u8;
                let low = (converted % 256) as u8;
                bytes.push(high);
                bytes.push(low);
            },
            token => {
                return Err(TokenError::UnexpectedOpcode(token.clone()));
            },
        }
        assert(self@.operand_bytes() == Some(bytes@)) by {
            assert(bytes@ =~= self@.operand_bytes().unwrap());
        }
        Ok(bytes)
    }
}

} // verus!
