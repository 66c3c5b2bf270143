//! The resolver and the encoders: names are replaced by their numbers, each
//! operation is held to the active backend's ranges and packed into a word,
//! and every failure is collected.

use vstd::prelude::*;

use crate::backends::{Backend, RegisterError};
use crate::layout::{
    assemble_2reg, condition_and_address, field_and_byte, high_byte,
    lemma_2reg_read_back, lemma_condition_and_address_read_back,
    lemma_field_and_byte_read_back, lemma_three_fields_read_back, low_byte, spec_2reg,
    spec_address_of, spec_condition_and_address, spec_condition_of, spec_field_a, spec_field_b,
    spec_field_c, spec_field_and_byte, spec_high_byte, spec_low_byte, spec_opcode_of,
    spec_three_fields, three_fields,
};
use crate::parser::{
    Address, DefineMap, Immediate, LabelMap, OperationWithArgs, ParsedProgram, ParserError,
};
use crate::span::Span;
use crate::token::{Condition, Operation};

verus! {

/// A failure of assembly, with the range of the offending text.
#[derive(Debug, PartialEq, Eq, Clone)]
pub enum AssemblerError {
    DefineNotFound(Span, String),
    LabelNotFound(Span, String),
    ParserError(ParserError),
    UnsupportedOperation(Span, Operation),
    InvalidRegister(Span, RegisterError),
    AddressOutOfRange(Span, i64),
    OffsetOutOfRange(Span, i64),
    InvalidCondition(Span, Condition),
    ImmediateOutOfRange(Span, i64),
}

impl AssemblerError {
    /// The range the error is about.
    pub open spec fn spec_span(self) -> Span {
        match self {
            AssemblerError::DefineNotFound(span, _) => span,
            AssemblerError::LabelNotFound(span, _) => span,
            AssemblerError::ParserError(inner) => inner.spec_span(),
            AssemblerError::UnsupportedOperation(span, _) => span,
            AssemblerError::InvalidRegister(span, _) => span,
            AssemblerError::AddressOutOfRange(span, _) => span,
            AssemblerError::OffsetOutOfRange(span, _) => span,
            AssemblerError::InvalidCondition(span, _) => span,
            AssemblerError::ImmediateOutOfRange(span, _) => span,
        }
    }

    pub fn span(&self) -> (span: Span)
        ensures
            span == self.spec_span(),
    {
        match self {
            AssemblerError::DefineNotFound(span, _) => *span,
            AssemblerError::LabelNotFound(span, _) => *span,
            AssemblerError::ParserError(inner) => inner.span(),
            AssemblerError::UnsupportedOperation(span, _) => *span,
            AssemblerError::InvalidRegister(span, _) => *span,
            AssemblerError::AddressOutOfRange(span, _) => *span,
            AssemblerError::OffsetOutOfRange(span, _) => *span,
            AssemblerError::InvalidCondition(span, _) => *span,
            AssemblerError::ImmediateOutOfRange(span, _) => *span,
        }
    }
}

/// The number an immediate operand stands for.
pub open spec fn immediate_value(defines: DefineMap, operand: Immediate, span: Span) -> Result<
    i64,
    AssemblerError,
> {
    match operand {
        Immediate::Value(value) => Ok(value),
        Immediate::Define(name) => match defines.lookup(name@) {
            Some(value) => Ok(value),
            None => Err(AssemblerError::DefineNotFound(span, name)),
        },
    }
}

/// The number a jump target stands for.
pub open spec fn address_value(labels: LabelMap, operand: Address, span: Span) -> Result<
    i64,
    AssemblerError,
> {
    match operand {
        Address::Value(value) => Ok(value),
        Address::Label(name) => match labels.lookup(name@) {
            Some(value) => Ok(value),
            None => Err(AssemblerError::LabelNotFound(span, name)),
        },
    }
}

/// A register index as the backend's field holds it: accepted exactly below
/// the backend's register count.
pub open spec fn register_field(backend: Backend, index: u8, span: Span) -> Result<
    u8,
    AssemblerError,
> {
    if index < backend.spec_register_count() {
        Ok(index)
    } else {
        Err(AssemblerError::InvalidRegister(span, backend.range_error(index)))
    }
}

/// An immediate as an 8-bit field: -128 to 255, negative numbers in two's
/// complement.
pub open spec fn immediate_field(value: i64, span: Span) -> Result<u8, AssemblerError> {
    if -128 <= value <= 255 {
        Ok((if value < 0 { value + 256 } else { value as int }) as u8)
    } else {
        Err(AssemblerError::ImmediateOutOfRange(span, value))
    }
}

/// An address as a 10-bit field.
pub open spec fn address_field(value: i64, span: Span) -> Result<u16, AssemblerError> {
    if 0 <= value <= 1023 {
        Ok(value as u16)
    } else {
        Err(AssemblerError::AddressOutOfRange(span, value))
    }
}

/// An offset as a 4-bit field: -8 to 7, negative numbers in two's
/// complement.
pub open spec fn offset_field(value: i64, span: Span) -> Result<u8, AssemblerError> {
    if -8 <= value <= 7 {
        Ok((if value < 0 { value + 16 } else { value as int }) as u8)
    } else {
        Err(AssemblerError::OffsetOutOfRange(span, value))
    }
}

/// A condition code as a 2-bit field; the 16-register backend branches on
/// four of them.
pub open spec fn condition_field(condition: Condition, span: Span) -> Result<u8, AssemblerError> {
    match condition {
        Condition::Equal => Ok(0u8),
        Condition::NotEqual => Ok(1u8),
        Condition::GreaterEqual => Ok(2u8),
        Condition::Less => Ok(3u8),
        _ => Err(AssemblerError::InvalidCondition(span, condition)),
    }
}

/// The opcode of a mnemonic on the 16-register backend, if it has one.
pub open spec fn batpu2_opcode(op: Operation) -> Option<u16> {
    match op {
        Operation::Nop => Some(0u16),
        Operation::Hlt => Some(1u16),
        Operation::Add => Some(2u16),
        Operation::Sub => Some(3u16),
        Operation::Nor => Some(4u16),
        Operation::And => Some(5u16),
        Operation::Xor => Some(6u16),
        Operation::Rsh => Some(7u16),
        Operation::Ldi => Some(8u16),
        Operation::Adi => Some(9u16),
        Operation::Jmp => Some(10u16),
        Operation::Brh => Some(11u16),
        Operation::Cal => Some(12u16),
        Operation::Ret => Some(13u16),
        Operation::Lod => Some(14u16),
        Operation::Str => Some(15u16),
        _ => None,
    }
}

/// Whether the mnemonic combines two registers into a third.
pub open spec fn is_arithmetic(op: Operation) -> bool {
    op == Operation::Add || op == Operation::Sub || op == Operation::Nor || op == Operation::And
        || op == Operation::Xor
}

/// Whether the 16-register backend encodes the mnemonic with operands of
/// this shape.
pub open spec fn batpu2_supports(operation: OperationWithArgs) -> bool {
    match operation {
        OperationWithArgs::Bare(op) => op == Operation::Nop || op == Operation::Hlt || op
            == Operation::Ret,
        OperationWithArgs::Register1(_, _) => false,
        OperationWithArgs::Registers2(op, _, _) => is_arithmetic(op) || op == Operation::Rsh,
        OperationWithArgs::Registers3(op, _, _, _) => is_arithmetic(op),
        OperationWithArgs::RegisterImmediate(op, _, _) => op == Operation::Ldi || op
            == Operation::Adi,
        OperationWithArgs::Jump(op, _) => op == Operation::Jmp || op == Operation::Cal,
        OperationWithArgs::Branch(op, _, _) => op == Operation::Brh,
        OperationWithArgs::Memory(op, _, _, _) => op == Operation::Lod || op == Operation::Str,
    }
}

/// Three register indices packed under an opcode; the first index out of
/// range decides the error.
pub open spec fn registers_word(backend: Backend, opcode: u16, a: u8, b: u8, c: u8, span: Span) -> Result<
    u16,
    AssemblerError,
> {
    match register_field(backend, a, span) {
        Err(e) => Err(e),
        Ok(fa) => match register_field(backend, b, span) {
            Err(e) => Err(e),
            Ok(fb) => match register_field(backend, c, span) {
                Err(e) => Err(e),
                Ok(fc) => Ok(spec_three_fields(opcode, fa, fb, fc)),
            },
        },
    }
}

/// The word of one operation on the 16-register backend, or why it has
/// none. A mnemonic or shape the backend lacks is reported before any
/// operand; operands are checked from left to right. The two-register form
/// of an arithmetic operation writes to its second register; a shift has no
/// second source.
pub open spec fn batpu2_word(
    defines: DefineMap,
    labels: LabelMap,
    operation: OperationWithArgs,
    span: Span,
) -> Result<u16, AssemblerError> {
    let backend = Backend::BatPU2;
    let mnemonic = operation.spec_mnemonic();
    if !batpu2_supports(operation) {
        Err(AssemblerError::UnsupportedOperation(span, mnemonic))
    } else {
        let opcode = batpu2_opcode(mnemonic).unwrap();
        match operation {
            OperationWithArgs::Bare(_) => Ok(spec_three_fields(opcode, 0, 0, 0)),
            OperationWithArgs::Register1(_, _) => Err(
                AssemblerError::UnsupportedOperation(span, mnemonic),
            ),
            OperationWithArgs::Registers2(_, a, c) => if mnemonic == Operation::Rsh {
                registers_word(backend, opcode, a, 0, c, span)
            } else {
                registers_word(backend, opcode, a, c, c, span)
            },
            OperationWithArgs::Registers3(_, a, b, c) => registers_word(
                backend,
                opcode,
                a,
                b,
                c,
                span,
            ),
            OperationWithArgs::RegisterImmediate(_, a, operand) => match register_field(
                backend,
                a,
                span,
            ) {
                Err(e) => Err(e),
                Ok(fa) => match immediate_value(defines, operand, span) {
                    Err(e) => Err(e),
                    Ok(value) => match immediate_field(value, span) {
                        Err(e) => Err(e),
                        Ok(byte) => Ok(spec_field_and_byte(opcode, fa, byte)),
                    },
                },
            },
            OperationWithArgs::Jump(_, target) => match address_value(labels, target, span) {
                Err(e) => Err(e),
                Ok(value) => match address_field(value, span) {
                    Err(e) => Err(e),
                    Ok(address) => Ok(spec_condition_and_address(opcode, 0, address)),
                },
            },
            OperationWithArgs::Branch(_, condition, target) => match condition_field(
                condition,
                span,
            ) {
                Err(e) => Err(e),
                Ok(code) => match address_value(labels, target, span) {
                    Err(e) => Err(e),
                    Ok(value) => match address_field(value, span) {
                        Err(e) => Err(e),
                        Ok(address) => Ok(spec_condition_and_address(opcode, code, address)),
                    },
                },
            },
            OperationWithArgs::Memory(_, a, b, offset) => match register_field(backend, a, span) {
                Err(e) => Err(e),
                Ok(fa) => match register_field(backend, b, span) {
                    Err(e) => Err(e),
                    Ok(fb) => match offset_field(offset, span) {
                        Err(e) => Err(e),
                        Ok(fo) => Ok(spec_three_fields(opcode, fa, fb, fo)),
                    },
                },
            },
        }
    }
}

/// The word of one operation on the 4-register backend, or why it has
/// none: it encodes the register copy and nothing else so far.
pub open spec fn tau_word(operation: OperationWithArgs, span: Span) -> Result<
    u16,
    AssemblerError,
> {
    let backend = Backend::TauAnalyzersNone;
    match operation {
        OperationWithArgs::Registers2(Operation::Cpy, a, b) => match register_field(
            backend,
            a,
            span,
        ) {
            Err(e) => Err(e),
            Ok(fa) => match register_field(backend, b, span) {
                Err(e) => Err(e),
                Ok(fb) => Ok(spec_2reg(fa, fb)),
            },
        },
        _ => Err(AssemblerError::UnsupportedOperation(span, operation.spec_mnemonic())),
    }
}

/// The word of one operation on `backend`, or why it has none.
pub open spec fn word_for(
    backend: Backend,
    defines: DefineMap,
    labels: LabelMap,
    operation: OperationWithArgs,
    span: Span,
) -> Result<u16, AssemblerError> {
    match backend {
        Backend::BatPU2 => batpu2_word(defines, labels, operation, span),
        Backend::TauAnalyzersNone => tau_word(operation, span),
    }
}

/// A register index one below the backend's register count is accepted as
/// it is, and the count itself is rejected with the backend's own error.
pub proof fn lemma_register_boundary(backend: Backend, span: Span)
    ensures
        register_field(backend, (backend.spec_register_count() - 1) as u8, span) == Ok::<
            u8,
            AssemblerError,
        >((backend.spec_register_count() - 1) as u8),
        register_field(backend, backend.spec_register_count() as u8, span) == Err::<
            u8,
            AssemblerError,
        >(
            AssemblerError::InvalidRegister(
                span,
                backend.range_error(backend.spec_register_count() as u8),
            ),
        ),
{
}

/// What reading a word of the 16-register backend back must give for it to
/// be the word of `operation`: its opcode, and each operand in its field.
pub open spec fn batpu2_reads_back(
    defines: DefineMap,
    labels: LabelMap,
    operation: OperationWithArgs,
    span: Span,
    word: u16,
) -> bool {
    &&& Some(spec_opcode_of(word)) == batpu2_opcode(operation.spec_mnemonic())
    &&& match operation {
        OperationWithArgs::Bare(_) => spec_field_a(word) == 0 && spec_field_b(word) == 0
            && spec_field_c(word) == 0,
        OperationWithArgs::Register1(_, _) => false,
        OperationWithArgs::Registers2(op, a, c) => spec_field_a(word) == a && spec_field_c(word)
            == c && spec_field_b(word) == (if op == Operation::Rsh {
            0
        } else {
            c
        }),
        OperationWithArgs::Registers3(_, a, b, c) => spec_field_a(word) == a && spec_field_b(word)
            == b && spec_field_c(word) == c,
        OperationWithArgs::RegisterImmediate(_, a, operand) => spec_field_a(word) == a
            && immediate_value(defines, operand, span).is_ok() && Ok::<u8, AssemblerError>(
            spec_low_byte(word),
        ) == immediate_field(immediate_value(defines, operand, span).unwrap(), span),
        OperationWithArgs::Jump(_, target) => address_value(labels, target, span) == Ok::<
            i64,
            AssemblerError,
        >(spec_address_of(word) as i64) && spec_condition_of(word) == 0,
        OperationWithArgs::Branch(_, condition, target) => address_value(labels, target, span)
            == Ok::<i64, AssemblerError>(spec_address_of(word) as i64) && condition_field(
            condition,
            span,
        ) == Ok::<u8, AssemblerError>(spec_condition_of(word)),
        OperationWithArgs::Memory(_, a, b, offset) => spec_field_a(word) == a && spec_field_b(word)
            == b && offset_field(offset, span) == Ok::<u8, AssemblerError>(spec_field_c(word)),
    }
}

/// Every word the 16-register backend encodes reads back as the opcode and
/// the operand values it was made from.
pub proof fn lemma_batpu2_round_trip(
    defines: DefineMap,
    labels: LabelMap,
    operation: OperationWithArgs,
    span: Span,
)
    requires
        batpu2_word(defines, labels, operation, span).is_ok(),
    ensures
        batpu2_reads_back(
            defines,
            labels,
            operation,
            span,
            batpu2_word(defines, labels, operation, span).unwrap(),
        ),
{
    let backend = Backend::BatPU2;
    let opcode = batpu2_opcode(operation.spec_mnemonic()).unwrap();
    match operation {
        OperationWithArgs::Bare(_) => {
            lemma_three_fields_read_back(opcode, 0, 0, 0);
        },
        OperationWithArgs::Register1(_, _) => {},
        OperationWithArgs::Registers2(op, a, c) => {
            if op == Operation::Rsh {
                lemma_three_fields_read_back(opcode, a, 0, c);
            } else {
                lemma_three_fields_read_back(opcode, a, c, c);
            }
        },
        OperationWithArgs::Registers3(_, a, b, c) => {
            lemma_three_fields_read_back(opcode, a, b, c);
        },
        OperationWithArgs::RegisterImmediate(_, a, operand) => {
            let value = immediate_value(defines, operand, span).unwrap();
            lemma_field_and_byte_read_back(opcode, a, immediate_field(value, span).unwrap());
        },
        OperationWithArgs::Jump(_, target) => {
            let value = address_value(labels, target, span).unwrap();
            lemma_condition_and_address_read_back(opcode, 0, value as u16);
        },
        OperationWithArgs::Branch(_, condition, target) => {
            let value = address_value(labels, target, span).unwrap();
            lemma_condition_and_address_read_back(
                opcode,
                condition_field(condition, span).unwrap(),
                value as u16,
            );
        },
        OperationWithArgs::Memory(_, a, b, offset) => {
            lemma_three_fields_read_back(opcode, a, b, offset_field(offset, span).unwrap());
        },
    }
}

/// Every word the 4-register backend encodes reads back as the two
/// register indices it was made from.
pub proof fn lemma_tau_round_trip(operation: OperationWithArgs, span: Span)
    requires
        tau_word(operation, span).is_ok(),
    ensures
        operation matches OperationWithArgs::Registers2(op, a, b) && op == Operation::Cpy
            && spec_high_byte(tau_word(operation, span).unwrap()) == a && spec_low_byte(
            tau_word(operation, span).unwrap(),
        ) == b,
{
    match operation {
        OperationWithArgs::Registers2(_, a, b) => {
            lemma_2reg_read_back(a, b);
        },
        _ => {},
    }
}

/// Looks a named constant up, or takes the literal.
pub fn resolve_immediate(defines: &DefineMap, operand: &Immediate, span: Span) -> (value: Result<
    i64,
    AssemblerError,
>)
    requires
        defines.wf(),
    ensures
        value == immediate_value(*defines, *operand, span),
{
    match operand {
        Immediate::Value(value) => Ok(*value),
        Immediate::Define(name) => match defines.get(name) {
            Some(value) => Ok(value),
            None => Err(AssemblerError::DefineNotFound(span, name.clone())),
        },
    }
}

/// Looks a label up, or takes the literal address.
pub fn resolve_address(labels: &LabelMap, operand: &Address, span: Span) -> (value: Result<
    i64,
    AssemblerError,
>)
    requires
        labels.wf(),
    ensures
        value == address_value(*labels, *operand, span),
{
    match operand {
        Address::Value(value) => Ok(*value),
        Address::Label(name) => match labels.get(name) {
            Some(value) => Ok(value),
            None => Err(AssemblerError::LabelNotFound(span, name.clone())),
        },
    }
}

/// Holds a register index to the backend's register count.
pub fn check_register(backend: Backend, index: u8, span: Span) -> (field: Result<
    u8,
    AssemblerError,
>)
    ensures
        field == register_field(backend, index, span),
{
    match backend.register(index) {
        Ok(register) => Ok(register.value()),
        Err(error) => Err(AssemblerError::InvalidRegister(span, error)),
    }
}

/// Holds an immediate to the 8-bit field.
pub fn check_immediate(value: i64, span: Span) -> (field: Result<u8, AssemblerError>)
    ensures
        field == immediate_field(value, span),
{
    if value < -128 || value > 255 {
        Err(AssemblerError::ImmediateOutOfRange(span, value))
    } else if value < 0 {
        Ok((value + 256) as u8)
    } else {
        Ok(value as u8)
    }
}

/// Holds an address to the 10-bit field.
pub fn check_address(value: i64, span: Span) -> (field: Result<u16, AssemblerError>)
    ensures
        field == address_field(value, span),
{
    if value < 0 || value > 1023 {
        Err(AssemblerError::AddressOutOfRange(span, value))
    } else {
        Ok(value as u16)
    }
}

/// Holds an offset to the signed 4-bit field.
pub fn check_offset(value: i64, span: Span) -> (field: Result<u8, AssemblerError>)
    ensures
        field == offset_field(value, span),
{
    if value < -8 || value > 7 {
        Err(AssemblerError::OffsetOutOfRange(span, value))
    } else if value < 0 {
        Ok((value + 16) as u8)
    } else {
        Ok(value as u8)
    }
}

/// Holds a condition code to the four the 16-register backend branches on.
pub fn check_condition(condition: Condition, span: Span) -> (field: Result<u8, AssemblerError>)
    ensures
        field == condition_field(condition, span),
{
    match condition {
        Condition::Equal => Ok(0),
        Condition::NotEqual => Ok(1),
        Condition::GreaterEqual => Ok(2),
        Condition::Less => Ok(3),
        _ => Err(AssemblerError::InvalidCondition(span, condition)),
    }
}

fn opcode_batpu2(op: Operation) -> (opcode: Option<u16>)
    ensures
        opcode == batpu2_opcode(op),
        opcode.is_some() ==> opcode.unwrap() < 16,
{
    match op {
        Operation::Nop => Some(0),
        Operation::Hlt => Some(1),
        Operation::Add => Some(2),
        Operation::Sub => Some(3),
        Operation::Nor => Some(4),
        Operation::And => Some(5),
        Operation::Xor => Some(6),
        Operation::Rsh => Some(7),
        Operation::Ldi => Some(8),
        Operation::Adi => Some(9),
        Operation::Jmp => Some(10),
        Operation::Brh => Some(11),
        Operation::Cal => Some(12),
        Operation::Ret => Some(13),
        Operation::Lod => Some(14),
        Operation::Str => Some(15),
        _ => None,
    }
}

fn arithmetic(op: Operation) -> (yes: bool)
    ensures
        yes == is_arithmetic(op),
{
    match op {
        Operation::Add | Operation::Sub | Operation::Nor | Operation::And | Operation::Xor => true,
        _ => false,
    }
}

fn supports_batpu2(operation: &OperationWithArgs) -> (yes: bool)
    ensures
        yes == batpu2_supports(*operation),
        yes ==> batpu2_opcode(operation.spec_mnemonic()).is_some(),
{
    match operation {
        OperationWithArgs::Bare(op) => matches!(op, Operation::Nop | Operation::Hlt | Operation::Ret),
        OperationWithArgs::Register1(_, _) => false,
        OperationWithArgs::Registers2(op, _, _) => arithmetic(*op) || matches!(op, Operation::Rsh),
        OperationWithArgs::Registers3(op, _, _, _) => arithmetic(*op),
        OperationWithArgs::RegisterImmediate(op, _, _) => matches!(
            op,
            Operation::Ldi | Operation::Adi
        ),
        OperationWithArgs::Jump(op, _) => matches!(op, Operation::Jmp | Operation::Cal),
        OperationWithArgs::Branch(op, _, _) => matches!(op, Operation::Brh),
        OperationWithArgs::Memory(op, _, _, _) => matches!(op, Operation::Lod | Operation::Str),
    }
}

fn encode_registers(backend: Backend, opcode: u16, a: u8, b: u8, c: u8, span: Span) -> (word: Result<
    u16,
    AssemblerError,
>)
    requires
        opcode < 16,
        backend == Backend::BatPU2,
    ensures
        word == registers_word(backend, opcode, a, b, c, span),
{
    let fa = match check_register(backend, a, span) {
        Ok(field) => field,
        Err(error) => return Err(error),
    };
    let fb = match check_register(backend, b, span) {
        Ok(field) => field,
        Err(error) => return Err(error),
    };
    let fc = match check_register(backend, c, span) {
        Ok(field) => field,
        Err(error) => return Err(error),
    };
    Ok(three_fields(opcode, fa, fb, fc))
}

/// Encodes one operation for the 16-register backend.
pub fn encode_batpu2(
    defines: &DefineMap,
    labels: &LabelMap,
    operation: &OperationWithArgs,
    span: Span,
) -> (word: Result<u16, AssemblerError>)
    requires
        defines.wf(),
        labels.wf(),
    ensures
        word == batpu2_word(*defines, *labels, *operation, span),
{
    let backend = Backend::BatPU2;
    let mnemonic = operation.mnemonic();
    if !supports_batpu2(operation) {
        return Err(AssemblerError::UnsupportedOperation(span, mnemonic));
    }
    let opcode = match opcode_batpu2(mnemonic) {
        Some(opcode) => opcode,
        None => return Err(AssemblerError::UnsupportedOperation(span, mnemonic)),
    };
    match operation {
        OperationWithArgs::Bare(_) => Ok(three_fields(opcode, 0, 0, 0)),
        OperationWithArgs::Register1(_, _) => Err(
            AssemblerError::UnsupportedOperation(span, mnemonic),
        ),
        OperationWithArgs::Registers2(_, a, c) => {
            if matches!(mnemonic, Operation::Rsh) {
                encode_registers(backend, opcode, *a, 0, *c, span)
            } else {
                encode_registers(backend, opcode, *a, *c, *c, span)
            }
        },
        OperationWithArgs::Registers3(_, a, b, c) => encode_registers(
            backend,
            opcode,
            *a,
            *b,
            *c,
            span,
        ),
        OperationWithArgs::RegisterImmediate(_, a, operand) => {
            let fa = match check_register(backend, *a, span) {
                Ok(field) => field,
                Err(error) => return Err(error),
            };
            let value = match resolve_immediate(defines, operand, span) {
                Ok(value) => value,
                Err(error) => return Err(error),
            };
            match check_immediate(value, span) {
                Ok(byte) => Ok(field_and_byte(opcode, fa, byte)),
                Err(error) => Err(error),
            }
        },
        OperationWithArgs::Jump(_, target) => {
            let value = match resolve_address(labels, target, span) {
                Ok(value) => value,
                Err(error) => return Err(error),
            };
            match check_address(value, span) {
                Ok(address) => Ok(condition_and_address(opcode, 0, address)),
                Err(error) => Err(error),
            }
        },
        OperationWithArgs::Branch(_, condition, target) => {
            let code = match check_condition(*condition, span) {
                Ok(code) => code,
                Err(error) => return Err(error),
            };
            let value = match resolve_address(labels, target, span) {
                Ok(value) => value,
                Err(error) => return Err(error),
            };
            match check_address(value, span) {
                Ok(address) => Ok(condition_and_address(opcode, code, address)),
                Err(error) => Err(error),
            }
        },
        OperationWithArgs::Memory(_, a, b, offset) => {
            let fa = match check_register(backend, *a, span) {
                Ok(field) => field,
                Err(error) => return Err(error),
            };
            let fb = match check_register(backend, *b, span) {
                Ok(field) => field,
                Err(error) => return Err(error),
            };
            match check_offset(*offset, span) {
                Ok(fo) => Ok(three_fields(opcode, fa, fb, fo)),
                Err(error) => Err(error),
            }
        },
    }
}

/// Encodes one operation for the 4-register backend.
pub fn encode_tau(operation: &OperationWithArgs, span: Span) -> (word: Result<u16, AssemblerError>)
    ensures
        word == tau_word(*operation, span),
{
    let backend = Backend::TauAnalyzersNone;
    match operation {
        OperationWithArgs::Registers2(Operation::Cpy, a, b) => {
            let fa = match check_register(backend, *a, span) {
                Ok(field) => field,
                Err(error) => return Err(error),
            };
            match check_register(backend, *b, span) {
                Ok(fb) => Ok(assemble_2reg(fa, fb)),
                Err(error) => Err(error),
            }
        },
        _ => Err(AssemblerError::UnsupportedOperation(span, operation.mnemonic())),
    }
}

/// Encodes one operation for the 4-register backend as the bytes of its
/// word, high byte first. The symbol tables are not consulted: no operation
/// this backend encodes names a constant or a label.
pub fn assemble_operation(
    defines: &DefineMap,
    labels: &LabelMap,
    operation: OperationWithArgs,
    span: Span,
) -> (bytes: Result<Vec<u8>, AssemblerError>)
    ensures
        bytes.is_ok() == tau_word(operation, span).is_ok(),
        bytes.is_ok() ==> bytes.unwrap()@ == seq![
            spec_high_byte(tau_word(operation, span).unwrap()),
            spec_low_byte(tau_word(operation, span).unwrap()),
        ],
        bytes.is_err() ==> bytes.unwrap_err() == tau_word(operation, span).unwrap_err(),
{
    match encode_tau(&operation, span) {
        Ok(word) => {
            let mut bytes: Vec<u8> = Vec::new();
            bytes.push(high_byte(word));
            bytes.push(low_byte(word));
            assert(bytes@ =~= seq![spec_high_byte(word), spec_low_byte(word)]);
            Ok(bytes)
        },
        Err(error) => Err(error),
    }
}

/// Encodes one operation for `backend`.
pub fn encode(
    backend: Backend,
    defines: &DefineMap,
    labels: &LabelMap,
    operation: &OperationWithArgs,
    span: Span,
) -> (word: Result<u16, AssemblerError>)
    requires
        defines.wf(),
        labels.wf(),
    ensures
        word == word_for(backend, *defines, *labels, *operation, span),
{
    match backend {
        Backend::BatPU2 => encode_batpu2(defines, labels, operation, span),
        Backend::TauAnalyzersNone => encode_tau(operation, span),
    }
}

/// What encoding the operation at `index` gives.
pub open spec fn outcome(program: ParsedProgram, backend: Backend, index: int) -> Result<
    u16,
    AssemblerError,
> {
    word_for(
        backend,
        program.defines,
        program.labels,
        program.operations@[index].0,
        program.operations@[index].1,
    )
}

/// The failures among the first `count` operations, in program order.
pub open spec fn failures(program: ParsedProgram, backend: Backend, count: int) -> Seq<
    AssemblerError,
>
    decreases count,
{
    if count <= 0 {
        Seq::empty()
    } else {
        let earlier = failures(program, backend, count - 1);
        match outcome(program, backend, count - 1) {
            Ok(_) => earlier,
            Err(error) => earlier.push(error),
        }
    }
}

/// The errors recorded while parsing, as assembly reports them.
pub open spec fn parser_failures(errors: Seq<ParserError>) -> Seq<AssemblerError> {
    Seq::new(errors.len(), |i: int| AssemblerError::ParserError(errors[i]))
}

/// Every error of the program: those of parsing first, then one per
/// operation that cannot be encoded, in program order.
pub open spec fn all_failures(program: ParsedProgram, backend: Backend) -> Seq<AssemblerError> {
    parser_failures(program.errors@) + failures(
        program,
        backend,
        program.operations@.len() as int,
    )
}

/// One word per operation, in program order.
pub open spec fn all_words(program: ParsedProgram, backend: Backend) -> Seq<u16> {
    Seq::new(program.operations@.len(), |i: int| outcome(program, backend, i).unwrap())
}

/// The result of assembly: the complete word sequence where nothing
/// failed, the complete list of failures otherwise.
pub open spec fn assembled(program: ParsedProgram, backend: Backend) -> Result<
    Seq<u16>,
    Seq<AssemblerError>,
> {
    if all_failures(program, backend).len() == 0 {
        Ok(all_words(program, backend))
    } else {
        Err(all_failures(program, backend))
    }
}

/// Two programs with the same operations, the same recorded errors and the
/// same table contents give the same outcome for every operation.
proof fn lemma_same_outcome(first: ParsedProgram, second: ParsedProgram, backend: Backend, i: int)
    requires
        same_contents(first, second),
        0 <= i < first.operations@.len(),
    ensures
        outcome(first, backend, i) == outcome(second, backend, i),
{
    assert(forall|name: Seq<char>| first.defines.lookup(name) == second.defines.lookup(name));
    assert(forall|name: Seq<char>| first.labels.lookup(name) == second.labels.lookup(name));
}

proof fn lemma_same_failures(
    first: ParsedProgram,
    second: ParsedProgram,
    backend: Backend,
    count: int,
)
    requires
        same_contents(first, second),
        0 <= count <= first.operations@.len(),
    ensures
        failures(first, backend, count) == failures(second, backend, count),
    decreases count,
{
    if count > 0 {
        lemma_same_failures(first, second, backend, count - 1);
        lemma_same_outcome(first, second, backend, count - 1);
    }
}

/// Whether two programs hold the same operations, the same recorded errors
/// and the same names and numbers in their tables.
pub open spec fn same_contents(first: ParsedProgram, second: ParsedProgram) -> bool {
    &&& first.operations@ == second.operations@
    &&& first.errors@ == second.errors@
    &&& first.defines.spec_names() == second.defines.spec_names()
    &&& first.defines.spec_values() == second.defines.spec_values()
    &&& first.labels.spec_names() == second.labels.spec_names()
    &&& first.labels.spec_values() == second.labels.spec_values()
}

/// Assembly is a function of the program's contents and the backend:
/// assembling the same source for the same backend again gives the same
/// words, or the same errors.
pub proof fn lemma_assembly_repeats(first: ParsedProgram, second: ParsedProgram, backend: Backend)
    requires
        same_contents(first, second),
    ensures
        assembled(first, backend) == assembled(second, backend),
{
    let count = first.operations@.len() as int;
    lemma_same_failures(first, second, backend, count);
    assert forall|i: int| 0 <= i < count implies outcome(first, backend, i) == outcome(
        second,
        backend,
        i,
    ) by {
        lemma_same_outcome(first, second, backend, i);
    }
    assert(all_words(first, backend) =~= all_words(second, backend));
}

/// No failure is lost and none is reported twice: the error of a failing
/// operation stands in the list at the place given by the number of
/// failures before it, so the errors come in program order, one for each
/// failing operation.
pub proof fn lemma_failures_complete(
    program: ParsedProgram,
    backend: Backend,
    count: int,
    index: int,
)
    requires
        0 <= index < count <= program.operations@.len(),
        outcome(program, backend, index).is_err(),
    ensures
        failures(program, backend, index).len() < failures(program, backend, count).len(),
        failures(program, backend, count)[failures(program, backend, index).len() as int]
            == outcome(program, backend, index).unwrap_err(),
    decreases count,
{
    if index < count - 1 {
        lemma_failures_complete(program, backend, count - 1, index);
    }
}

/// Operations that encode add nothing to the list of failures, and each
/// failing one adds exactly one entry.
pub proof fn lemma_failures_count(program: ParsedProgram, backend: Backend, count: int)
    requires
        0 < count <= program.operations@.len(),
    ensures
        failures(program, backend, count).len() == failures(program, backend, count - 1).len() + (
        if outcome(program, backend, count - 1).is_err() {
            1int
        } else {
            0int
        }),
{
}

/// What assembly hands back: the words or the errors, and the two tables
/// for whoever wants to look names up afterwards.
#[derive(Debug)]
pub struct Assembled {
    pub result: Result<Vec<u16>, Vec<AssemblerError>>,
    pub defines: DefineMap,
    pub labels: LabelMap,
}

impl Assembled {
    /// The result, words and errors as sequences.
    pub open spec fn outcome(self) -> Result<Seq<u16>, Seq<AssemblerError>> {
        match self.result {
            Ok(words) => Ok(words@),
            Err(errors) => Err(errors@),
        }
    }
}

/// The two-pass assembler for one parsed program and one backend.
#[derive(Debug, Clone)]
pub struct Assembler {
    pub backend: Backend,
    pub parsed: ParsedProgram,
}

impl Assembler {
    pub fn new(backend: Backend, parsed: ParsedProgram) -> (assembler: Assembler)
        ensures
            assembler.backend == backend,
            assembler.parsed == parsed,
    {
        Assembler { backend, parsed }
    }

    /// Encodes every operation, whatever fails on the way, and returns all
    /// the words or all the errors.
    pub fn assemble(self) -> (done: Assembled)
        requires
            self.parsed.wf(),
        ensures
            done.outcome() == assembled(self.parsed, self.backend),
            done.defines == self.parsed.defines,
            done.labels == self.parsed.labels,
    {
        let backend = self.backend;
        let program = self.parsed;
        let mut errors: Vec<AssemblerError> = Vec::new();
        let mut k: usize = 0;
        while k < program.errors.len()
            invariant
                k <= program.errors@.len(),
                errors@ =~= parser_failures(program.errors@.take(k as int)),
            decreases program.errors@.len() - k,
        {
            errors.push(AssemblerError::ParserError(program.errors[k].duplicate()));
            k += 1;
        }
        assert(program.errors@.take(k as int) =~= program.errors@);
        let mut words: Vec<u16> = Vec::new();
        let mut i: usize = 0;
        while i < program.operations.len()
            invariant
                program.wf(),
                i <= program.operations@.len(),
                errors@ =~= parser_failures(program.errors@) + failures(
                    program,
                    backend,
                    i as int,
                ),
                words@.len() <= i,
                failures(program, backend, i as int).len() == 0 ==> words@.len() == i
                    && forall|j: int|
                    0 <= j < i ==> (#[trigger] outcome(program, backend, j)).is_ok() && words@[j]
                        == outcome(program, backend, j).unwrap(),
            decreases program.operations@.len() - i,
        {
            let entry = &program.operations[i];
            let ghost before = words@;
            match encode(backend, &program.defines, &program.labels, &entry.0, entry.1) {
                Ok(word) => {
                    words.push(word);
                },
                Err(error) => {
                    errors.push(error);
                },
            }
            i += 1;
            assert(failures(program, backend, i as int).len() >= failures(
                program,
                backend,
                i - 1,
            ).len());
            assert(forall|j: int| 0 <= j < before.len() ==> words@[j] == before[j]);
        }
        if errors.len() == 0 {
            assert(words@ =~= all_words(program, backend));
            Assembled { result: Ok(words), defines: program.defines, labels: program.labels }
        } else {
            Assembled { result: Err(errors), defines: program.defines, labels: program.labels }
        }
    }
}

} // verus!
