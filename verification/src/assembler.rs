//! The assembler: from assembly text to the machine's byte format.
//!
//! [`parsing`] reads text into instruction records; the records encode
//! themselves into bytes.

pub mod lexer;
pub mod parsing;
pub mod token;
