//! The lexical model: what a token is and where it was read.

use vstd::prelude::*;

use crate::span::Span;

verus! {

/// A condition code of a branch.
#[derive(Debug, PartialEq, Eq, Clone, Copy, Structural)]
pub enum Condition {
    Equal,
    NotEqual,
    GreaterEqual,
    Less,
    Not,
    NotZero,
    Negative,
    NotNegative,
}

/// An operation mnemonic.
#[derive(Debug, PartialEq, Eq, Clone, Copy, Structural)]
pub enum Operation {
    Nop,
    Hlt,
    Add,
    Sub,
    Nor,
    And,
    Xor,
    Rsh,
    Ldi,
    Adi,
    Jmp,
    Brh,
    Cal,
    Ret,
    Lod,
    Str,
    Cmp,
    Mov,
    Lsh,
    Inc,
    Dec,
    Not,
    Neg,
    Or,
    Cpy,
    Adc,
    Mld,
    Mst,
    Pld,
    Pst,
    Inv,
    Cpi,
    Ani,
    Bkl,
    Bkr,
    Skp,
    Clr,
}

/// A reserved word of the assembly language.
#[derive(Debug, PartialEq, Eq, Clone, Copy, Structural)]
pub enum Keyword {
    Operation(Operation),
    Condition(Condition),
    Define,
}

/// A register as written in the source, not yet held to any backend.
#[derive(Debug, PartialEq, Eq, Clone, Copy, Structural)]
pub struct Register(pub u8);

impl Register {
    /// The first register.
    pub fn r0() -> (reg: Register)
        ensures
            reg == Register(0),
    {
        Register(0)
    }
}

/// One lexical unit.
#[derive(Debug, PartialEq, Clone)]
pub enum Token {
    Keyword(Keyword),
    Label(String),
    Identifier(String),
    Number(i64),
    Comma,
    Eof,
    Register(Register),
}

/// A token with the range of text it was read from.
#[derive(Debug, PartialEq, Clone)]
pub struct TokenSpan {
    pub token: Token,
    pub span: Span,
}

impl TokenSpan {
    pub fn new(token: Token, span: Span) -> (paired: TokenSpan)
        ensures
            paired.token == token,
            paired.span == span,
    {
        Self { token, span }
    }
}

} // verus!
