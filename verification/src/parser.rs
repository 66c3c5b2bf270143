//! What parsing yields: operations with their operands, the two symbol
//! tables, and the errors recorded on the way.

use vstd::prelude::*;

use crate::span::Span;
use crate::token::{Condition, Keyword, Operation, Token, TokenSpan};

verus! {

/// An immediate operand: a literal, or a named constant still to be
/// looked up.
#[derive(Debug, PartialEq, Eq, Clone)]
pub enum Immediate {
    Value(i64),
    Define(String),
}

/// A jump target: a literal address, or a label still to be looked up.
#[derive(Debug, PartialEq, Eq, Clone)]
pub enum Address {
    Value(i64),
    Label(String),
}

/// One operation with its operands, in the shape its mnemonic asks for and
/// not yet held to any backend's ranges.
#[derive(Debug, PartialEq, Eq, Clone)]
pub enum OperationWithArgs {
    /// No operand.
    Bare(Operation),
    /// One register.
    Register1(Operation, u8),
    /// Source register and destination register.
    Registers2(Operation, u8, u8),
    /// Two source registers and a destination register.
    Registers3(Operation, u8, u8, u8),
    /// A register and an immediate.
    RegisterImmediate(Operation, u8, Immediate),
    /// A jump target.
    Jump(Operation, Address),
    /// A condition code and a jump target.
    Branch(Operation, Condition, Address),
    /// A base register, a data register and a signed offset.
    Memory(Operation, u8, u8, i64),
}

impl OperationWithArgs {
    /// The mnemonic of the operation.
    pub open spec fn spec_mnemonic(self) -> Operation {
        match self {
            OperationWithArgs::Bare(op) => op,
            OperationWithArgs::Register1(op, _) => op,
            OperationWithArgs::Registers2(op, _, _) => op,
            OperationWithArgs::Registers3(op, _, _, _) => op,
            OperationWithArgs::RegisterImmediate(op, _, _) => op,
            OperationWithArgs::Jump(op, _) => op,
            OperationWithArgs::Branch(op, _, _) => op,
            OperationWithArgs::Memory(op, _, _, _) => op,
        }
    }

    pub fn mnemonic(&self) -> (op: Operation)
        ensures
            op == self.spec_mnemonic(),
    {
        match self {
            OperationWithArgs::Bare(op) => *op,
            OperationWithArgs::Register1(op, _) => *op,
            OperationWithArgs::Registers2(op, _, _) => *op,
            OperationWithArgs::Registers3(op, _, _, _) => *op,
            OperationWithArgs::RegisterImmediate(op, _, _) => *op,
            OperationWithArgs::Jump(op, _) => *op,
            OperationWithArgs::Branch(op, _, _) => *op,
            OperationWithArgs::Memory(op, _, _, _) => *op,
        }
    }
}

/// A table from names to numbers, each name held once, in the order the
/// names were declared.
#[derive(Debug, Clone)]
pub struct SymbolTable {
    names: Vec<String>,
    values: Vec<i64>,
    spans: Vec<Span>,
}

/// Named constants and their values.
pub type DefineMap = SymbolTable;

/// Labels and the word addresses they stand for.
pub type LabelMap = SymbolTable;

impl SymbolTable {
    /// Every entry has its name, value and place, and no name is held twice.
    pub closed spec fn wf(self) -> bool {
        &&& self.names@.len() == self.values@.len()
        &&& self.names@.len() == self.spans@.len()
        &&& forall|i: int, j: int|
            0 <= i < j < self.names@.len() ==> self.names@[i]@ != self.names@[j]@
    }

    /// The declared names, in declaration order.
    pub closed spec fn spec_names(self) -> Seq<Seq<char>> {
        Seq::new(self.names@.len(), |i: int| self.names@[i]@)
    }

    /// The number declared with each name, in declaration order.
    pub closed spec fn spec_values(self) -> Seq<i64> {
        self.values@
    }

    /// Where each name was declared, in declaration order.
    pub closed spec fn spec_spans(self) -> Seq<Span> {
        self.spans@
    }

    /// Whether `name` has been declared.
    pub open spec fn contains(self, name: Seq<char>) -> bool {
        self.spec_names().contains(name)
    }

    /// The number declared for `name`, if any.
    pub open spec fn lookup(self, name: Seq<char>) -> Option<i64> {
        if self.contains(name) {
            Some(self.spec_values()[self.spec_names().index_of(name)])
        } else {
            None
        }
    }

    pub fn new() -> (table: SymbolTable)
        ensures
            table.wf(),
            table.spec_names() == Seq::<Seq<char>>::empty(),
            table.spec_values() == Seq::<i64>::empty(),
            table.spec_spans() == Seq::<Span>::empty(),
    {
        let table = SymbolTable { names: Vec::new(), values: Vec::new(), spans: Vec::new() };
        assert(table.spec_names() =~= Seq::<Seq<char>>::empty());
        table
    }

    /// Number of declared names.
    pub fn len(&self) -> (count: usize)
        requires
            self.wf(),
        ensures
            count == self.spec_names().len(),
            count == self.spec_values().len(),
            count == self.spec_spans().len(),
    {
        self.names.len()
    }

    /// Index of `name` among the declared names.
    fn position(&self, name: &String) -> (at: Option<usize>)
        requires
            self.wf(),
        ensures
            at.is_some() == self.contains(name@),
            at.is_some() ==> at.unwrap() < self.spec_names().len() && at.unwrap()
                == self.spec_names().index_of(name@),
    {
        let ghost names = self.spec_names();
        let mut i: usize = 0;
        while i < self.names.len()
            invariant
                i <= self.names@.len(),
                names == self.spec_names(),
                names.len() == self.names@.len(),
                forall|j: int| 0 <= j < names.len() ==> names[j] == self.names@[j]@,
                forall|i: int, j: int| 0 <= i < j < names.len() ==> names[i] != names[j],
                forall|j: int| 0 <= j < i ==> names[j] != name@,
            decreases self.names@.len() - i,
        {
            if self.names[i] == *name {
                proof {
                    assert(names[i as int] == name@);
                    assert(names.contains(name@));
                    let found = names.index_of(name@);
                    assert(names[found] == name@);
                    assert(found == i);
                }
                return Some(i);
            }
            i += 1;
        }
        proof {
            if names.contains(name@) {
                let found = names.index_of(name@);
                assert(names[found] == name@);
            }
        }
        None
    }

    /// The number declared for `name`, if any.
    pub fn get(&self, name: &String) -> (found: Option<i64>)
        requires
            self.wf(),
        ensures
            found == self.lookup(name@),
    {
        match self.position(name) {
            Some(at) => Some(self.values[at]),
            None => None,
        }
    }

    /// Records `name` with `value` unless the name is already held; tells
    /// whether it was recorded. Earlier entries are never changed.
    pub fn declare(&mut self, name: String, value: i64, span: Span) -> (fresh: bool)
        requires
            old(self).wf(),
        ensures
            final(self).wf(),
            fresh == !old(self).contains(name@),
            fresh ==> final(self).spec_names() == old(self).spec_names().push(name@)
                && final(self).spec_values() == old(self).spec_values().push(value)
                && final(self).spec_spans() == old(self).spec_spans().push(span),
            !fresh ==> *final(self) == *old(self),
    {
        if self.position(&name).is_some() {
            return false;
        }
        let ghost before = self.spec_names();
        assert(forall|j: int| 0 <= j < before.len() ==> before[j] != name@) by {
            assert forall|j: int| 0 <= j < before.len() implies before[j] != name@ by {
                if before[j] == name@ {
                    assert(before.contains(name@));
                }
            }
        }
        let ghost held = self.names@;
        assert(forall|j: int| 0 <= j < held.len() ==> before[j] == held[j]@);
        self.names.push(name);
        self.values.push(value);
        self.spans.push(span);
        assert(self.spec_names() =~= before.push(name@));
        assert forall|i: int, j: int| 0 <= i < j < self.names@.len() implies self.names@[i]@
            != self.names@[j]@ by {
            assert(self.names@[i] == held[i]);
            assert(before[i] != name@);
            if j < held.len() {
                assert(self.names@[j] == held[j]);
            }
        }
        true
    }

    /// Declaring a fresh name makes it resolve to the number declared with
    /// it, and every other name resolves as before: a name stands for one
    /// number, whenever it is asked for.
    pub proof fn lemma_lookup_after_declare(
        before: SymbolTable,
        after: SymbolTable,
        name: Seq<char>,
        value: i64,
        other: Seq<char>,
    )
        requires
            before.wf(),
            !before.contains(name),
            after.spec_names() == before.spec_names().push(name),
            after.spec_values() == before.spec_values().push(value),
        ensures
            after.lookup(name) == Some(value),
            other != name ==> after.lookup(other) == before.lookup(other),
    {
        let old_names = before.spec_names();
        let new_names = after.spec_names();
        let last = old_names.len() as int;
        assert(new_names[last] == name);
        assert(new_names.contains(name));
        let at = new_names.index_of(name);
        assert(new_names[at] == name);
        if at < last {
            assert(old_names[at] == name);
            assert(old_names.contains(name));
        }
        if other != name {
            if old_names.contains(other) {
                let first = old_names.index_of(other);
                assert(old_names[first] == other);
                assert(new_names[first] == other);
                assert(new_names.contains(other));
                let second = new_names.index_of(other);
                assert(new_names[second] == other);
                assert(second < last);
                assert(old_names[second] == other);
                assert(before.names@[first]@ == before.names@[second]@);
            } else if new_names.contains(other) {
                let second = new_names.index_of(other);
                assert(new_names[second] == other);
                assert(old_names[second] == other);
                assert(old_names.contains(other));
            }
        }
    }
}

/// A lexical error, with the range of the offending text.
#[derive(Debug, PartialEq, Eq, Clone)]
pub enum LexerError {
    InvalidNumber(Span, String),
    UnexpectedCharacter(Span, char),
    ExpectedCharacter(Span, char),
    UnknownCondition(Span, String),
    InvalidOffset(Span, String),
    InvalidIsaCode(Span, String),
    InvalidRegisterNumber(Span, String),
}

impl LexerError {
    /// The range the error is about.
    pub open spec fn spec_span(self) -> Span {
        match self {
            LexerError::InvalidNumber(span, _) => span,
            LexerError::UnexpectedCharacter(span, _) => span,
            LexerError::ExpectedCharacter(span, _) => span,
            LexerError::UnknownCondition(span, _) => span,
            LexerError::InvalidOffset(span, _) => span,
            LexerError::InvalidIsaCode(span, _) => span,
            LexerError::InvalidRegisterNumber(span, _) => span,
        }
    }

    pub fn span(&self) -> (span: Span)
        ensures
            span == self.spec_span(),
    {
        match self {
            LexerError::InvalidNumber(span, _) => *span,
            LexerError::UnexpectedCharacter(span, _) => *span,
            LexerError::ExpectedCharacter(span, _) => *span,
            LexerError::UnknownCondition(span, _) => *span,
            LexerError::InvalidOffset(span, _) => *span,
            LexerError::InvalidIsaCode(span, _) => *span,
            LexerError::InvalidRegisterNumber(span, _) => *span,
        }
    }

    /// An equal error of its own.
    pub fn duplicate(&self) -> (copy: LexerError)
        ensures
            copy == *self,
    {
        match self {
            LexerError::InvalidNumber(span, text) => LexerError::InvalidNumber(*span, text.clone()),
            LexerError::UnexpectedCharacter(span, c) => LexerError::UnexpectedCharacter(*span, *c),
            LexerError::ExpectedCharacter(span, c) => LexerError::ExpectedCharacter(*span, *c),
            LexerError::UnknownCondition(span, text) => LexerError::UnknownCondition(
                *span,
                text.clone(),
            ),
            LexerError::InvalidOffset(span, text) => LexerError::InvalidOffset(*span, text.clone()),
            LexerError::InvalidIsaCode(span, text) => LexerError::InvalidIsaCode(
                *span,
                text.clone(),
            ),
            LexerError::InvalidRegisterNumber(span, text) => LexerError::InvalidRegisterNumber(
                *span,
                text.clone(),
            ),
        }
    }
}

/// What the parser was looking for where it met something else.
#[derive(Debug, PartialEq, Eq, Clone, Copy, Structural)]
pub enum Expected {
    Statement,
    Register,
    Comma,
    Immediate,
    Address,
    Condition,
    Number,
    Name,
}

/// The kind of a token, without what it holds.
#[derive(Debug, PartialEq, Eq, Clone, Copy, Structural)]
pub enum TokenKind {
    Keyword,
    Label,
    Identifier,
    Number,
    Comma,
    Eof,
    Register,
}

/// A syntactic error, with the range of the offending text.
#[derive(Debug, PartialEq, Eq, Clone)]
pub enum ParserError {
    SyntaxError(LexerError),
    DuplicateDefine(Span, String),
    DuplicateLabel(Span, String),
    /// What was expected, then what was read.
    ExpectedButReceived(Span, Expected, TokenKind),
    UnexpectedEof(Span),
    InvalidSkip(Span, i64),
}

impl ParserError {
    /// The range the error is about.
    pub open spec fn spec_span(self) -> Span {
        match self {
            ParserError::SyntaxError(inner) => inner.spec_span(),
            ParserError::DuplicateDefine(span, _) => span,
            ParserError::DuplicateLabel(span, _) => span,
            ParserError::ExpectedButReceived(span, _, _) => span,
            ParserError::UnexpectedEof(span) => span,
            ParserError::InvalidSkip(span, _) => span,
        }
    }

    pub fn span(&self) -> (span: Span)
        ensures
            span == self.spec_span(),
    {
        match self {
            ParserError::SyntaxError(inner) => inner.span(),
            ParserError::DuplicateDefine(span, _) => *span,
            ParserError::DuplicateLabel(span, _) => *span,
            ParserError::ExpectedButReceived(span, _, _) => *span,
            ParserError::UnexpectedEof(span) => *span,
            ParserError::InvalidSkip(span, _) => *span,
        }
    }

    /// An equal error of its own.
    pub fn duplicate(&self) -> (copy: ParserError)
        ensures
            copy == *self,
    {
        match self {
            ParserError::SyntaxError(inner) => ParserError::SyntaxError(inner.duplicate()),
            ParserError::DuplicateDefine(span, name) => ParserError::DuplicateDefine(
                *span,
                name.clone(),
            ),
            ParserError::DuplicateLabel(span, name) => ParserError::DuplicateLabel(
                *span,
                name.clone(),
            ),
            ParserError::ExpectedButReceived(span, expected, received) => {
                ParserError::ExpectedButReceived(*span, *expected, *received)
            },
            ParserError::UnexpectedEof(span) => ParserError::UnexpectedEof(*span),
            ParserError::InvalidSkip(span, distance) => ParserError::InvalidSkip(*span, *distance),
        }
    }
}

/// One outcome of the lexer: a token or a lexical error.
pub type Lexed = Result<TokenSpan, LexerError>;

/// What one statement of the source adds to the program.
#[derive(Debug, PartialEq, Eq, Clone)]
pub enum Statement {
    Emit(OperationWithArgs, Span),
    Define(String, i64, Span),
    Label(String, Span),
    Error(ParserError),
}

/// How many operands a mnemonic takes, and of which kinds.
#[derive(Debug, PartialEq, Eq, Clone, Copy, Structural)]
pub enum Shape {
    /// No operand.
    Bare,
    /// One register.
    Register1,
    /// Two registers.
    Registers2,
    /// Two registers, or three.
    Arithmetic,
    /// A register and an immediate.
    RegisterImmediate,
    /// A jump target.
    Jump,
    /// A condition code and a jump target.
    Branch,
    /// Two registers and a signed offset.
    Memory,
}

/// The operand shape of each mnemonic.
pub open spec fn spec_shape(op: Operation) -> Shape {
    match op {
        Operation::Nop | Operation::Hlt | Operation::Ret | Operation::Inv | Operation::Bkl
        | Operation::Bkr => Shape::Bare,
        Operation::Inc | Operation::Dec | Operation::Clr | Operation::Mld | Operation::Mst
        | Operation::Pld | Operation::Pst => Shape::Register1,
        Operation::Rsh | Operation::Cmp | Operation::Mov | Operation::Lsh | Operation::Not
        | Operation::Neg | Operation::Cpy => Shape::Registers2,
        Operation::Add | Operation::Sub | Operation::Nor | Operation::And | Operation::Xor
        | Operation::Or | Operation::Adc => Shape::Arithmetic,
        Operation::Ldi | Operation::Adi | Operation::Cpi | Operation::Ani => {
            Shape::RegisterImmediate
        },
        Operation::Jmp | Operation::Cal | Operation::Skp => Shape::Jump,
        Operation::Brh => Shape::Branch,
        Operation::Lod | Operation::Str => Shape::Memory,
    }
}

pub fn shape(op: Operation) -> (shape: Shape)
    ensures
        shape == spec_shape(op),
{
    match op {
        Operation::Nop | Operation::Hlt | Operation::Ret | Operation::Inv | Operation::Bkl
        | Operation::Bkr => Shape::Bare,
        Operation::Inc | Operation::Dec | Operation::Clr | Operation::Mld | Operation::Mst
        | Operation::Pld | Operation::Pst => Shape::Register1,
        Operation::Rsh | Operation::Cmp | Operation::Mov | Operation::Lsh | Operation::Not
        | Operation::Neg | Operation::Cpy => Shape::Registers2,
        Operation::Add | Operation::Sub | Operation::Nor | Operation::And | Operation::Xor
        | Operation::Or | Operation::Adc => Shape::Arithmetic,
        Operation::Ldi | Operation::Adi | Operation::Cpi | Operation::Ani => {
            Shape::RegisterImmediate
        },
        Operation::Jmp | Operation::Cal | Operation::Skp => Shape::Jump,
        Operation::Brh => Shape::Branch,
        Operation::Lod | Operation::Str => Shape::Memory,
    }
}

/// The kind of a token.
pub open spec fn spec_kind(token: Token) -> TokenKind {
    match token {
        Token::Keyword(_) => TokenKind::Keyword,
        Token::Label(_) => TokenKind::Label,
        Token::Identifier(_) => TokenKind::Identifier,
        Token::Number(_) => TokenKind::Number,
        Token::Comma => TokenKind::Comma,
        Token::Eof => TokenKind::Eof,
        Token::Register(_) => TokenKind::Register,
    }
}

pub fn kind(token: &Token) -> (kind: TokenKind)
    ensures
        kind == spec_kind(*token),
{
    match token {
        Token::Keyword(_) => TokenKind::Keyword,
        Token::Label(_) => TokenKind::Label,
        Token::Identifier(_) => TokenKind::Identifier,
        Token::Number(_) => TokenKind::Number,
        Token::Comma => TokenKind::Comma,
        Token::Eof => TokenKind::Eof,
        Token::Register(_) => TokenKind::Register,
    }
}

/// Whether the stream is over at `at`: behind its last outcome, or at an
/// end-of-input token.
pub open spec fn at_end(items: Seq<Lexed>, at: int) -> bool {
    at < 0 || at >= items.len() || (items[at] matches Ok(paired) && paired.token == Token::Eof)
}

/// Whether a statement can begin at `at`: with a label, a mnemonic or the
/// directive that names a constant.
pub open spec fn begins_statement(items: Seq<Lexed>, at: int) -> bool {
    0 <= at < items.len() && match items[at] {
        Ok(paired) => match paired.token {
            Token::Label(_) => true,
            Token::Keyword(Keyword::Operation(_)) => true,
            Token::Keyword(Keyword::Define) => true,
            _ => false,
        },
        Err(_) => false,
    }
}

/// Where reading resumes after an error at `from`: at the next place where
/// a statement can begin, or where the stream is over.
pub open spec fn resync(items: Seq<Lexed>, from: int) -> int
    decreases items.len() - from,
{
    if from < 0 || from >= items.len() {
        from
    } else if at_end(items, from) || begins_statement(items, from) {
        from
    } else {
        resync(items, from + 1)
    }
}

/// The place reported for the end of the stream: that of its last outcome.
pub open spec fn end_span(items: Seq<Lexed>) -> Span {
    if items.len() == 0 {
        Span::spec_new(0, 0)
    } else {
        match items.last() {
            Ok(paired) => paired.span,
            Err(error) => error.spec_span(),
        }
    }
}

/// The error for an outcome at `at` that is not what was expected: the
/// lexical error that stands there, the end of input, or the token met.
pub open spec fn mismatch(items: Seq<Lexed>, at: int, expected: Expected) -> ParserError {
    if at < 0 || at >= items.len() {
        ParserError::UnexpectedEof(end_span(items))
    } else {
        match items[at] {
            Err(error) => ParserError::SyntaxError(error),
            Ok(paired) => if paired.token == Token::Eof {
                ParserError::UnexpectedEof(paired.span)
            } else {
                ParserError::ExpectedButReceived(paired.span, expected, spec_kind(paired.token))
            },
        }
    }
}

/// The token at `at`, if one stands there.
pub open spec fn token_at(items: Seq<Lexed>, at: int) -> Option<Token> {
    if 0 <= at < items.len() {
        match items[at] {
            Ok(paired) => Some(paired.token),
            Err(_) => None,
        }
    } else {
        None
    }
}

pub open spec fn register_at(items: Seq<Lexed>, at: int) -> Result<u8, ParserError> {
    match token_at(items, at) {
        Some(Token::Register(register)) => Ok(register.0),
        _ => Err(mismatch(items, at, Expected::Register)),
    }
}

pub open spec fn comma_at(items: Seq<Lexed>, at: int) -> Result<(), ParserError> {
    match token_at(items, at) {
        Some(Token::Comma) => Ok(()),
        _ => Err(mismatch(items, at, Expected::Comma)),
    }
}

pub open spec fn immediate_at(items: Seq<Lexed>, at: int) -> Result<Immediate, ParserError> {
    match token_at(items, at) {
        Some(Token::Number(value)) => Ok(Immediate::Value(value)),
        Some(Token::Identifier(name)) => Ok(Immediate::Define(name)),
        _ => Err(mismatch(items, at, Expected::Immediate)),
    }
}

pub open spec fn address_at(items: Seq<Lexed>, at: int) -> Result<Address, ParserError> {
    match token_at(items, at) {
        Some(Token::Number(value)) => Ok(Address::Value(value)),
        Some(Token::Identifier(name)) => Ok(Address::Label(name)),
        _ => Err(mismatch(items, at, Expected::Address)),
    }
}

pub open spec fn condition_at(items: Seq<Lexed>, at: int) -> Result<Condition, ParserError> {
    match token_at(items, at) {
        Some(Token::Keyword(Keyword::Condition(condition))) => Ok(condition),
        _ => Err(mismatch(items, at, Expected::Condition)),
    }
}

pub open spec fn number_at(items: Seq<Lexed>, at: int) -> Result<i64, ParserError> {
    match token_at(items, at) {
        Some(Token::Number(value)) => Ok(value),
        _ => Err(mismatch(items, at, Expected::Number)),
    }
}

pub open spec fn name_at(items: Seq<Lexed>, at: int) -> Result<String, ParserError> {
    match token_at(items, at) {
        Some(Token::Identifier(name)) => Ok(name),
        _ => Err(mismatch(items, at, Expected::Name)),
    }
}

/// A failed statement: its error, and where reading resumes.
pub open spec fn failed(items: Seq<Lexed>, at: int, error: ParserError) -> (Statement, int) {
    (Statement::Error(error), resync(items, at))
}

/// What the operands behind the mnemonic at `pos` make of it, and where the
/// next statement begins. Operands are separated by commas; the first
/// outcome that does not fit decides the error, and reading resumes at the
/// next statement behind it.
pub open spec fn operation_at(items: Seq<Lexed>, pos: int, op: Operation, span: Span) -> (
    Statement,
    int,
) {
    match spec_shape(op) {
        Shape::Bare => (Statement::Emit(OperationWithArgs::Bare(op), span), pos + 1),
        Shape::Register1 => match register_at(items, pos + 1) {
            Err(e) => failed(items, pos + 1, e),
            Ok(a) => (Statement::Emit(OperationWithArgs::Register1(op, a), span), pos + 2),
        },
        Shape::Registers2 => match register_at(items, pos + 1) {
            Err(e) => failed(items, pos + 1, e),
            Ok(a) => match comma_at(items, pos + 2) {
                Err(e) => failed(items, pos + 2, e),
                Ok(_) => match register_at(items, pos + 3) {
                    Err(e) => failed(items, pos + 3, e),
                    Ok(b) => (
                        Statement::Emit(OperationWithArgs::Registers2(op, a, b), span),
                        pos + 4,
                    ),
                },
            },
        },
        Shape::Arithmetic => match register_at(items, pos + 1) {
            Err(e) => failed(items, pos + 1, e),
            Ok(a) => match comma_at(items, pos + 2) {
                Err(e) => failed(items, pos + 2, e),
                Ok(_) => match register_at(items, pos + 3) {
                    Err(e) => failed(items, pos + 3, e),
                    Ok(b) => if comma_at(items, pos + 4).is_ok() {
                        match register_at(items, pos + 5) {
                            Err(e) => failed(items, pos + 5, e),
                            Ok(c) => (
                                Statement::Emit(OperationWithArgs::Registers3(op, a, b, c), span),
                                pos + 6,
                            ),
                        }
                    } else {
                        (Statement::Emit(OperationWithArgs::Registers2(op, a, b), span), pos + 4)
                    },
                },
            },
        },
        Shape::RegisterImmediate => match register_at(items, pos + 1) {
            Err(e) => failed(items, pos + 1, e),
            Ok(a) => match comma_at(items, pos + 2) {
                Err(e) => failed(items, pos + 2, e),
                Ok(_) => match immediate_at(items, pos + 3) {
                    Err(e) => failed(items, pos + 3, e),
                    Ok(value) => (
                        Statement::Emit(OperationWithArgs::RegisterImmediate(op, a, value), span),
                        pos + 4,
                    ),
                },
            },
        },
        Shape::Jump => match address_at(items, pos + 1) {
            Err(e) => failed(items, pos + 1, e),
            Ok(target) => (Statement::Emit(OperationWithArgs::Jump(op, target), span), pos + 2),
        },
        Shape::Branch => match condition_at(items, pos + 1) {
            Err(e) => failed(items, pos + 1, e),
            Ok(condition) => match comma_at(items, pos + 2) {
                Err(e) => failed(items, pos + 2, e),
                Ok(_) => match address_at(items, pos + 3) {
                    Err(e) => failed(items, pos + 3, e),
                    Ok(target) => (
                        Statement::Emit(OperationWithArgs::Branch(op, condition, target), span),
                        pos + 4,
                    ),
                },
            },
        },
        Shape::Memory => match register_at(items, pos + 1) {
            Err(e) => failed(items, pos + 1, e),
            Ok(a) => match comma_at(items, pos + 2) {
                Err(e) => failed(items, pos + 2, e),
                Ok(_) => match register_at(items, pos + 3) {
                    Err(e) => failed(items, pos + 3, e),
                    Ok(b) => match comma_at(items, pos + 4) {
                        Err(e) => failed(items, pos + 4, e),
                        Ok(_) => match number_at(items, pos + 5) {
                            Err(e) => failed(items, pos + 5, e),
                            Ok(offset) => (
                                Statement::Emit(OperationWithArgs::Memory(op, a, b, offset), span),
                                pos + 6,
                            ),
                        },
                    },
                },
            },
        },
    }
}

/// The statement that begins at `pos`, and where the next one begins. A
/// label stands alone; `define` takes a name and a number; a mnemonic takes
/// its operands; a lexical error is passed on; anything else is reported
/// and passed over.
pub open spec fn statement_at(items: Seq<Lexed>, pos: int) -> (Statement, int) {
    match items[pos] {
        Err(error) => (Statement::Error(ParserError::SyntaxError(error)), pos + 1),
        Ok(paired) => match paired.token {
            Token::Label(name) => (Statement::Label(name, paired.span), pos + 1),
            Token::Keyword(Keyword::Define) => match name_at(items, pos + 1) {
                Err(e) => failed(items, pos + 1, e),
                Ok(name) => match number_at(items, pos + 2) {
                    Err(e) => failed(items, pos + 2, e),
                    Ok(value) => (
                        Statement::Define(name, value, item_span(items, pos + 1)),
                        pos + 3,
                    ),
                },
            },
            Token::Keyword(Keyword::Operation(op)) => operation_at(items, pos, op, paired.span),
            _ => (Statement::Error(mismatch(items, pos, Expected::Statement)), pos + 1),
        },
    }
}

/// The place of the outcome at `at`.
pub open spec fn item_span(items: Seq<Lexed>, at: int) -> Span {
    match items[at] {
        Ok(paired) => paired.span,
        Err(error) => error.spec_span(),
    }
}

/// What a program holds, as plain sequences.
pub struct ProgramView {
    pub operations: Seq<(OperationWithArgs, Span)>,
    pub define_names: Seq<Seq<char>>,
    pub define_values: Seq<i64>,
    pub define_spans: Seq<Span>,
    pub label_names: Seq<Seq<char>>,
    pub label_values: Seq<i64>,
    pub label_spans: Seq<Span>,
    pub errors: Seq<ParserError>,
}

/// The program before anything was read.
pub open spec fn empty_program() -> ProgramView {
    ProgramView {
        operations: Seq::empty(),
        define_names: Seq::empty(),
        define_values: Seq::empty(),
        define_spans: Seq::empty(),
        label_names: Seq::empty(),
        label_values: Seq::empty(),
        label_spans: Seq::empty(),
        errors: Seq::empty(),
    }
}

/// The program after one more statement. An operation takes the next word;
/// a label stands for the number of operations before it; a fresh name is
/// recorded with the place it was declared at; a name declared before
/// keeps what it stood for, and the repetition is an error.
pub open spec fn apply(view: ProgramView, statement: Statement) -> ProgramView {
    match statement {
        Statement::Emit(operation, span) => ProgramView {
            operations: view.operations.push((operation, span)),
            define_names: view.define_names,
            define_values: view.define_values,
            define_spans: view.define_spans,
            label_names: view.label_names,
            label_values: view.label_values,
            label_spans: view.label_spans,
            errors: view.errors,
        },
        Statement::Define(name, value, span) => if view.define_names.contains(name@) {
            ProgramView {
                operations: view.operations,
                define_names: view.define_names,
                define_values: view.define_values,
                define_spans: view.define_spans,
                label_names: view.label_names,
                label_values: view.label_values,
                label_spans: view.label_spans,
                errors: view.errors.push(ParserError::DuplicateDefine(span, name)),
            }
        } else {
            ProgramView {
                operations: view.operations,
                define_names: view.define_names.push(name@),
                define_values: view.define_values.push(value),
                define_spans: view.define_spans.push(span),
                label_names: view.label_names,
                label_values: view.label_values,
                label_spans: view.label_spans,
                errors: view.errors,
            }
        },
        Statement::Label(name, span) => if view.label_names.contains(name@) {
            ProgramView {
                operations: view.operations,
                define_names: view.define_names,
                define_values: view.define_values,
                define_spans: view.define_spans,
                label_names: view.label_names,
                label_values: view.label_values,
                label_spans: view.label_spans,
                errors: view.errors.push(ParserError::DuplicateLabel(span, name)),
            }
        } else {
            ProgramView {
                operations: view.operations,
                define_names: view.define_names,
                define_values: view.define_values,
                define_spans: view.define_spans,
                label_names: view.label_names.push(name@),
                label_values: view.label_values.push(view.operations.len() as i64),
                label_spans: view.label_spans.push(span),
                errors: view.errors,
            }
        },
        Statement::Error(error) => ProgramView {
            operations: view.operations,
            define_names: view.define_names,
            define_values: view.define_values,
            define_spans: view.define_spans,
            label_names: view.label_names,
            label_values: view.label_values,
            label_spans: view.label_spans,
            errors: view.errors.push(error),
        },
    }
}

/// The program that `view` becomes by reading the statements from `pos` to
/// the end of the stream.
pub open spec fn parsed_from(view: ProgramView, items: Seq<Lexed>, pos: int) -> ProgramView
    decreases items.len() - pos,
{
    if at_end(items, pos) {
        view
    } else {
        let next = statement_at(items, pos).1;
        if next <= pos || next > items.len() {
            view
        } else {
            parsed_from(apply(view, statement_at(items, pos).0), items, next)
        }
    }
}

/// The program that a token stream stands for.
pub open spec fn parsed(items: Seq<Lexed>) -> ProgramView {
    parsed_from(empty_program(), items, 0)
}

/// Whether `later` holds everything `earlier` holds, in the same places,
/// and differs only by what was added behind it.
pub open spec fn extends(earlier: ProgramView, later: ProgramView) -> bool {
    &&& earlier.operations.is_prefix_of(later.operations)
    &&& earlier.define_names.is_prefix_of(later.define_names)
    &&& earlier.define_values.is_prefix_of(later.define_values)
    &&& earlier.define_spans.is_prefix_of(later.define_spans)
    &&& earlier.label_names.is_prefix_of(later.label_names)
    &&& earlier.label_values.is_prefix_of(later.label_values)
    &&& earlier.label_spans.is_prefix_of(later.label_spans)
    &&& earlier.errors.is_prefix_of(later.errors)
}

/// One statement adds one entry to the program, an operation, a name or
/// an error, and changes nothing that was there.
pub proof fn lemma_apply_extends(view: ProgramView, statement: Statement)
    ensures
        extends(view, apply(view, statement)),
        apply(view, statement).operations.len() + apply(view, statement).define_names.len()
            + apply(view, statement).label_names.len() + apply(view, statement).errors.len()
            == view.operations.len() + view.define_names.len() + view.label_names.len()
            + view.errors.len() + 1,
        view.define_names.len() == view.define_values.len() ==> apply(
            view,
            statement,
        ).define_names.len() == apply(view, statement).define_values.len(),
        view.label_names.len() == view.label_values.len() ==> apply(
            view,
            statement,
        ).label_names.len() == apply(view, statement).label_values.len(),
{
}

/// Reading on never changes what was read: the operations, names and
/// errors recorded so far stay where they are, and whatever the rest of
/// the stream gives comes behind them, in the order of the source.
pub proof fn lemma_reading_extends(view: ProgramView, items: Seq<Lexed>, pos: int)
    ensures
        extends(view, parsed_from(view, items, pos)),
    decreases items.len() - pos,
{
    if !at_end(items, pos) {
        let next = statement_at(items, pos).1;
        if !(next <= pos || next > items.len()) {
            let step = apply(view, statement_at(items, pos).0);
            lemma_apply_extends(view, statement_at(items, pos).0);
            lemma_reading_extends(step, items, next);
        }
    }
}

/// A name declared again is reported where it is repeated and changes
/// nothing else; a statement that is no repeated declaration and no error
/// reports nothing.
pub proof fn lemma_errors_of_a_statement(view: ProgramView, statement: Statement)
    ensures
        match statement {
            Statement::Define(name, _, span) => apply(view, statement).errors == (
            if view.define_names.contains(name@) {
                view.errors.push(ParserError::DuplicateDefine(span, name))
            } else {
                view.errors
            }),
            Statement::Label(name, span) => apply(view, statement).errors == (
            if view.label_names.contains(name@) {
                view.errors.push(ParserError::DuplicateLabel(span, name))
            } else {
                view.errors
            }),
            Statement::Error(error) => apply(view, statement).errors == view.errors.push(error),
            Statement::Emit(_, _) => apply(view, statement).errors == view.errors,
        },
{
}

/// Reading resumes at or behind the place of the error, inside the stream.
pub proof fn lemma_resync_bounds(items: Seq<Lexed>, from: int)
    requires
        0 <= from <= items.len(),
    ensures
        from <= resync(items, from) <= items.len(),
    decreases items.len() - from,
{
    if from < items.len() && !at_end(items, from) && !begins_statement(items, from) {
        lemma_resync_bounds(items, from + 1);
    }
}

fn is_end(items: &Vec<Lexed>, at: usize) -> (yes: bool)
    ensures
        yes == at_end(items@, at as int),
{
    if at >= items.len() {
        true
    } else {
        match &items[at] {
            Ok(paired) => matches!(paired.token, Token::Eof),
            Err(_) => false,
        }
    }
}

fn is_statement_start(items: &Vec<Lexed>, at: usize) -> (yes: bool)
    ensures
        yes == begins_statement(items@, at as int),
{
    if at >= items.len() {
        false
    } else {
        match &items[at] {
            Ok(paired) => match &paired.token {
                Token::Label(_) => true,
                Token::Keyword(Keyword::Operation(_)) => true,
                Token::Keyword(Keyword::Define) => true,
                _ => false,
            },
            Err(_) => false,
        }
    }
}

fn find_resync(items: &Vec<Lexed>, from: usize) -> (next: usize)
    requires
        from <= items@.len(),
    ensures
        next == resync(items@, from as int),
        from <= next <= items@.len(),
{
    let mut at: usize = from;
    while at < items.len() && !is_end(items, at) && !is_statement_start(items, at)
        invariant
            from <= at <= items@.len(),
            resync(items@, from as int) == resync(items@, at as int),
        decreases items@.len() - at,
    {
        at += 1;
    }
    at
}

fn span_of(items: &Vec<Lexed>, at: usize) -> (span: Span)
    requires
        at < items@.len(),
    ensures
        span == item_span(items@, at as int),
{
    match &items[at] {
        Ok(paired) => paired.span,
        Err(error) => error.span(),
    }
}

fn mismatch_at(items: &Vec<Lexed>, at: usize, expected: Expected) -> (error: ParserError)
    ensures
        error == mismatch(items@, at as int, expected),
{
    if at >= items.len() {
        if items.len() == 0 {
            ParserError::UnexpectedEof(Span::new(0, 0))
        } else {
            ParserError::UnexpectedEof(span_of(items, items.len() - 1))
        }
    } else {
        match &items[at] {
            Err(error) => ParserError::SyntaxError(error.duplicate()),
            Ok(paired) => {
                if matches!(paired.token, Token::Eof) {
                    ParserError::UnexpectedEof(paired.span)
                } else {
                    ParserError::ExpectedButReceived(paired.span, expected, kind(&paired.token))
                }
            },
        }
    }
}

fn read_register(items: &Vec<Lexed>, at: usize) -> (found: Result<u8, ParserError>)
    ensures
        found == register_at(items@, at as int),
{
    if at < items.len() {
        if let Ok(paired) = &items[at] {
            if let Token::Register(register) = &paired.token {
                return Ok(register.0);
            }
        }
    }
    Err(mismatch_at(items, at, Expected::Register))
}

fn read_comma(items: &Vec<Lexed>, at: usize) -> (found: Result<(), ParserError>)
    ensures
        found == comma_at(items@, at as int),
{
    if at < items.len() {
        if let Ok(paired) = &items[at] {
            if let Token::Comma = &paired.token {
                return Ok(());
            }
        }
    }
    Err(mismatch_at(items, at, Expected::Comma))
}

fn has_comma(items: &Vec<Lexed>, at: usize) -> (yes: bool)
    ensures
        yes == comma_at(items@, at as int).is_ok(),
{
    if at < items.len() {
        if let Ok(paired) = &items[at] {
            if let Token::Comma = &paired.token {
                return true;
            }
        }
    }
    false
}

fn read_immediate(items: &Vec<Lexed>, at: usize) -> (found: Result<Immediate, ParserError>)
    ensures
        found == immediate_at(items@, at as int),
{
    if at < items.len() {
        if let Ok(paired) = &items[at] {
            match &paired.token {
                Token::Number(value) => {
                    return Ok(Immediate::Value(*value));
                },
                Token::Identifier(name) => {
                    return Ok(Immediate::Define(name.clone()));
                },
                _ => {},
            }
        }
    }
    Err(mismatch_at(items, at, Expected::Immediate))
}

fn read_address(items: &Vec<Lexed>, at: usize) -> (found: Result<Address, ParserError>)
    ensures
        found == address_at(items@, at as int),
{
    if at < items.len() {
        if let Ok(paired) = &items[at] {
            match &paired.token {
                Token::Number(value) => {
                    return Ok(Address::Value(*value));
                },
                Token::Identifier(name) => {
                    return Ok(Address::Label(name.clone()));
                },
                _ => {},
            }
        }
    }
    Err(mismatch_at(items, at, Expected::Address))
}

fn read_condition(items: &Vec<Lexed>, at: usize) -> (found: Result<Condition, ParserError>)
    ensures
        found == condition_at(items@, at as int),
{
    if at < items.len() {
        if let Ok(paired) = &items[at] {
            if let Token::Keyword(Keyword::Condition(condition)) = &paired.token {
                return Ok(*condition);
            }
        }
    }
    Err(mismatch_at(items, at, Expected::Condition))
}

fn read_number(items: &Vec<Lexed>, at: usize) -> (found: Result<i64, ParserError>)
    ensures
        found == number_at(items@, at as int),
{
    if at < items.len() {
        if let Ok(paired) = &items[at] {
            if let Token::Number(value) = &paired.token {
                return Ok(*value);
            }
        }
    }
    Err(mismatch_at(items, at, Expected::Number))
}

fn read_name(items: &Vec<Lexed>, at: usize) -> (found: Result<String, ParserError>)
    ensures
        found == name_at(items@, at as int),
{
    if at < items.len() {
        if let Ok(paired) = &items[at] {
            if let Token::Identifier(name) = &paired.token {
                return Ok(name.clone());
            }
        }
    }
    Err(mismatch_at(items, at, Expected::Name))
}

fn fail(items: &Vec<Lexed>, at: usize, error: ParserError) -> (out: (Statement, usize))
    requires
        at <= items@.len(),
    ensures
        out.0 == failed(items@, at as int, error).0,
        out.1 == failed(items@, at as int, error).1,
        at <= out.1 <= items@.len(),
{
    (Statement::Error(error), find_resync(items, at))
}

/// Whether every position a statement can reach from inside the stream can
/// be counted.
pub open spec fn countable(items: Seq<Lexed>) -> bool {
    items.len() + 8 <= usize::MAX && items.len() <= i64::MAX
}

fn read_two_registers(items: &Vec<Lexed>, pos: usize) -> (found: Result<(u8, u8), (ParserError, usize)>)
    requires
        pos < items@.len(),
        countable(items@),
    ensures
        match found {
            Ok(pair) => register_at(items@, pos + 1) == Ok::<u8, ParserError>(pair.0) && comma_at(
                items@,
                pos + 2,
            ).is_ok() && register_at(items@, pos + 3) == Ok::<u8, ParserError>(pair.1),
            Err(e) => {
                ||| (register_at(items@, pos + 1) == Err::<u8, ParserError>(e.0) && e.1 == pos + 1)
                ||| (register_at(items@, pos + 1).is_ok() && comma_at(items@, pos + 2) == Err::<
                    (),
                    ParserError,
                >(e.0) && e.1 == pos + 2)
                ||| (register_at(items@, pos + 1).is_ok() && comma_at(items@, pos + 2).is_ok()
                    && register_at(items@, pos + 3) == Err::<u8, ParserError>(e.0) && e.1 == pos
                    + 3)
            },
        },
{
    let a = match read_register(items, pos + 1) {
        Ok(a) => a,
        Err(e) => return Err((e, pos + 1)),
    };
    match read_comma(items, pos + 2) {
        Ok(_) => {},
        Err(e) => return Err((e, pos + 2)),
    }
    match read_register(items, pos + 3) {
        Ok(b) => Ok((a, b)),
        Err(e) => Err((e, pos + 3)),
    }
}

fn read_operation(items: &Vec<Lexed>, pos: usize, op: Operation, span: Span) -> (out: (
    Statement,
    usize,
))
    requires
        pos < items@.len(),
        countable(items@),
    ensures
        out.0 == operation_at(items@, pos as int, op, span).0,
        out.1 == operation_at(items@, pos as int, op, span).1,
        pos < out.1,
{
    match shape(op) {
        Shape::Bare => (Statement::Emit(OperationWithArgs::Bare(op), span), pos + 1),
        Shape::Register1 => match read_register(items, pos + 1) {
            Err(e) => fail_behind(items, pos + 1, e),
            Ok(a) => (Statement::Emit(OperationWithArgs::Register1(op, a), span), pos + 2),
        },
        Shape::Registers2 => match read_two_registers(items, pos) {
            Err(e) => fail_behind(items, e.1, e.0),
            Ok(pair) => (
                Statement::Emit(OperationWithArgs::Registers2(op, pair.0, pair.1), span),
                pos + 4,
            ),
        },
        Shape::Arithmetic => match read_two_registers(items, pos) {
            Err(e) => fail_behind(items, e.1, e.0),
            Ok(pair) => {
                if has_comma(items, pos + 4) {
                    match read_register(items, pos + 5) {
                        Err(e) => fail_behind(items, pos + 5, e),
                        Ok(c) => (
                            Statement::Emit(
                                OperationWithArgs::Registers3(op, pair.0, pair.1, c),
                                span,
                            ),
                            pos + 6,
                        ),
                    }
                } else {
                    (
                        Statement::Emit(OperationWithArgs::Registers2(op, pair.0, pair.1), span),
                        pos + 4,
                    )
                }
            },
        },
        Shape::RegisterImmediate => match read_register(items, pos + 1) {
            Err(e) => fail_behind(items, pos + 1, e),
            Ok(a) => match read_comma(items, pos + 2) {
                Err(e) => fail_behind(items, pos + 2, e),
                Ok(_) => match read_immediate(items, pos + 3) {
                    Err(e) => fail_behind(items, pos + 3, e),
                    Ok(value) => (
                        Statement::Emit(OperationWithArgs::RegisterImmediate(op, a, value), span),
                        pos + 4,
                    ),
                },
            },
        },
        Shape::Jump => match read_address(items, pos + 1) {
            Err(e) => fail_behind(items, pos + 1, e),
            Ok(target) => (Statement::Emit(OperationWithArgs::Jump(op, target), span), pos + 2),
        },
        Shape::Branch => match read_condition(items, pos + 1) {
            Err(e) => fail_behind(items, pos + 1, e),
            Ok(condition) => match read_comma(items, pos + 2) {
                Err(e) => fail_behind(items, pos + 2, e),
                Ok(_) => match read_address(items, pos + 3) {
                    Err(e) => fail_behind(items, pos + 3, e),
                    Ok(target) => (
                        Statement::Emit(OperationWithArgs::Branch(op, condition, target), span),
                        pos + 4,
                    ),
                },
            },
        },
        Shape::Memory => match read_two_registers(items, pos) {
            Err(e) => fail_behind(items, e.1, e.0),
            Ok(pair) => match read_comma(items, pos + 4) {
                Err(e) => fail_behind(items, pos + 4, e),
                Ok(_) => match read_number(items, pos + 5) {
                    Err(e) => fail_behind(items, pos + 5, e),
                    Ok(offset) => (
                        Statement::Emit(
                            OperationWithArgs::Memory(op, pair.0, pair.1, offset),
                            span,
                        ),
                        pos + 6,
                    ),
                },
            },
        },
    }
}

/// A failed statement whose error stands at `at`, which may lie behind the
/// end of the stream.
fn fail_behind(items: &Vec<Lexed>, at: usize, error: ParserError) -> (out: (Statement, usize))
    ensures
        out.0 == failed(items@, at as int, error).0,
        out.1 == failed(items@, at as int, error).1,
        at <= out.1,
{
    if at <= items.len() {
        fail(items, at, error)
    } else {
        (Statement::Error(error), at)
    }
}

/// Reads the statement that begins at `pos`.
pub fn read_statement(items: &Vec<Lexed>, pos: usize) -> (out: (Statement, usize))
    requires
        pos < items@.len(),
        countable(items@),
    ensures
        out.0 == statement_at(items@, pos as int).0,
        out.1 == statement_at(items@, pos as int).1,
        pos < out.1,
{
    match &items[pos] {
        Err(error) => (Statement::Error(ParserError::SyntaxError(error.duplicate())), pos + 1),
        Ok(paired) => match &paired.token {
            Token::Label(name) => (Statement::Label(name.clone(), paired.span), pos + 1),
            Token::Keyword(Keyword::Define) => match read_name(items, pos + 1) {
                Err(e) => fail_behind(items, pos + 1, e),
                Ok(name) => match read_number(items, pos + 2) {
                    Err(e) => fail_behind(items, pos + 2, e),
                    Ok(value) => (Statement::Define(name, value, span_of(items, pos + 1)), pos + 3),
                },
            },
            Token::Keyword(Keyword::Operation(op)) => read_operation(items, pos, *op, paired.span),
            _ => (Statement::Error(mismatch_at(items, pos, Expected::Statement)), pos + 1),
        },
    }
}

/// A parsed compilation unit: the operations in source order, each with the
/// range it was read from, the two symbol tables, and every error recorded
/// while reading.
#[derive(Debug, Clone)]
pub struct ParsedProgram {
    pub operations: Vec<(OperationWithArgs, Span)>,
    pub defines: DefineMap,
    pub labels: LabelMap,
    pub errors: Vec<ParserError>,
}

impl ParsedProgram {
    /// Both symbol tables are well formed.
    pub open spec fn wf(self) -> bool {
        self.defines.wf() && self.labels.wf()
    }

    /// What the program holds, as plain sequences.
    pub open spec fn view(self) -> ProgramView {
        ProgramView {
            operations: self.operations@,
            define_names: self.defines.spec_names(),
            define_values: self.defines.spec_values(),
            define_spans: self.defines.spec_spans(),
            label_names: self.labels.spec_names(),
            label_values: self.labels.spec_values(),
            label_spans: self.labels.spec_spans(),
            errors: self.errors@,
        }
    }

    pub fn new() -> (program: ParsedProgram)
        ensures
            program.wf(),
            program.view() == empty_program(),
            program.operations@.len() == 0,
            program.errors@.len() == 0,
            program.defines.spec_names().len() == 0,
            program.labels.spec_names().len() == 0,
    {
        ParsedProgram {
            operations: Vec::new(),
            defines: SymbolTable::new(),
            labels: SymbolTable::new(),
            errors: Vec::new(),
        }
    }

    /// Appends an operation; it takes the next word of the output.
    pub fn emit(&mut self, operation: OperationWithArgs, span: Span)
        ensures
            old(self).wf() ==> final(self).wf(),
            final(self).operations@ == old(self).operations@.push((operation, span)),
            final(self).defines == old(self).defines,
            final(self).labels == old(self).labels,
            final(self).errors == old(self).errors,
    {
        self.operations.push((operation, span));
    }

    /// Records the constant `name`. A name already defined keeps its first
    /// value, and the repetition is recorded as an error at `span`; reading
    /// goes on either way.
    pub fn define(&mut self, name: String, value: i64, span: Span)
        requires
            old(self).wf(),
        ensures
            final(self).wf(),
            final(self).operations == old(self).operations,
            final(self).labels == old(self).labels,
            !old(self).defines.contains(name@) ==> final(self).errors == old(self).errors
                && final(self).defines.spec_names() == old(self).defines.spec_names().push(name@)
                && final(self).defines.spec_values() == old(self).defines.spec_values().push(
                value,
            ) && final(self).defines.spec_spans() == old(self).defines.spec_spans().push(span),
            old(self).defines.contains(name@) ==> final(self).defines == old(self).defines
                && final(self).errors@ == old(self).errors@.push(
                ParserError::DuplicateDefine(span, name),
            ),
    {
        let kept = name.clone();
        if !self.defines.declare(name, value, span) {
            self.errors.push(ParserError::DuplicateDefine(span, kept));
        }
    }

    /// Records the label `name` for the next operation to be emitted: its
    /// address is the number of operations emitted so far. A name already
    /// declared keeps its first address, and the repetition is recorded as
    /// an error at `span`.
    pub fn label(&mut self, name: String, span: Span)
        requires
            old(self).wf(),
            old(self).operations@.len() <= i64::MAX,
        ensures
            final(self).wf(),
            final(self).operations == old(self).operations,
            final(self).defines == old(self).defines,
            !old(self).labels.contains(name@) ==> final(self).errors == old(self).errors
                && final(self).labels.spec_names() == old(self).labels.spec_names().push(name@)
                && final(self).labels.spec_values() == old(self).labels.spec_values().push(
                old(self).operations@.len() as i64,
            ) && final(self).labels.spec_spans() == old(self).labels.spec_spans().push(span),
            old(self).labels.contains(name@) ==> final(self).labels == old(self).labels
                && final(self).errors@ == old(self).errors@.push(
                ParserError::DuplicateLabel(span, name),
            ),
    {
        let kept = name.clone();
        let address = self.operations.len() as i64;
        if !self.labels.declare(name, address, span) {
            self.errors.push(ParserError::DuplicateLabel(span, kept));
        }
    }
    /// Takes one more statement into the program.
    pub fn record(&mut self, statement: Statement)
        requires
            old(self).wf(),
            old(self).operations@.len() < i64::MAX,
        ensures
            final(self).wf(),
            final(self).view() == apply(old(self).view(), statement),
            final(self).operations@.len() <= old(self).operations@.len() + 1,
    {
        match statement {
            Statement::Emit(operation, span) => self.emit(operation, span),
            Statement::Define(name, value, span) => self.define(name, value, span),
            Statement::Label(name, span) => self.label(name, span),
            Statement::Error(error) => {
                self.errors.push(error);
            },
        }
    }
}

/// Reads a whole token stream: every statement is taken in, every error is
/// recorded at its place, and reading goes on behind each error with the
/// next statement.
pub fn parse(items: &Vec<Lexed>) -> (program: ParsedProgram)
    requires
        countable(items@),
    ensures
        program.wf(),
        program.view() == parsed(items@),
{
    let mut program = ParsedProgram::new();
    let mut pos: usize = 0;
    while !is_end(items, pos)
        invariant
            countable(items@),
            pos <= items@.len(),
            program.wf(),
            program.operations@.len() <= pos,
            parsed(items@) == parsed_from(program.view(), items@, pos as int),
        decreases items@.len() - pos,
    {
        let (statement, next) = read_statement(items, pos);
        proof {
            lemma_statement_bounds(items@, pos as int);
        }
        program.record(statement);
        pos = next;
    }
    program
}

/// A statement ends behind the place it begins at, inside the stream.
pub proof fn lemma_statement_bounds(items: Seq<Lexed>, pos: int)
    requires
        0 <= pos < items.len(),
    ensures
        pos < statement_at(items, pos).1 <= items.len(),
{
    lemma_resync_bounds(items, pos + 1);
    if pos + 2 <= items.len() {
        lemma_resync_bounds(items, pos + 2);
    }
    if pos + 3 <= items.len() {
        lemma_resync_bounds(items, pos + 3);
    }
    if pos + 4 <= items.len() {
        lemma_resync_bounds(items, pos + 4);
    }
    if pos + 5 <= items.len() {
        lemma_resync_bounds(items, pos + 5);
    }
}

} // verus!
