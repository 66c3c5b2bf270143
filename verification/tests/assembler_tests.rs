use smc_assembler::assembler::{
    assemble_operation, check_address, check_condition, check_immediate, check_offset,
    check_register, encode, encode_batpu2, encode_tau, resolve_address, resolve_immediate,
    Assembler, AssemblerError,
};
use smc_assembler::backends::{Backend, Register, RegisterError};
use smc_assembler::layout::{
    address_of, assemble_2reg, condition_and_address, condition_of, field_a, field_and_byte,
    field_b, field_c, high_byte, low_byte, opcode_of, three_fields,
};
use smc_assembler::parser::{
    Address, Expected, Immediate, LexerError, OperationWithArgs, ParsedProgram, ParserError,
    SymbolTable, TokenKind,
};
use smc_assembler::span::Span;
use smc_assembler::text::binary_word;
use smc_assembler::token::{
    Condition, Keyword, Operation, Register as RegisterToken, Token, TokenSpan,
};

fn at(start: usize, end: usize) -> Span {
    Span::new(start, end)
}

fn sample() -> ParsedProgram {
    // ldi r0, 5 / add r0, r0 / hlt
    let mut program = ParsedProgram::new();
    program.emit(
        OperationWithArgs::RegisterImmediate(Operation::Ldi, 0, Immediate::Value(5)),
        at(0, 9),
    );
    program.emit(OperationWithArgs::Registers2(Operation::Add, 0, 0), at(10, 20));
    program.emit(OperationWithArgs::Bare(Operation::Hlt), at(21, 24));
    program
}

#[test]
fn three_operations_give_three_words() {
    let done = Assembler::new(Backend::BatPU2, sample()).assemble();
    let words = done.result.expect("the program assembles");
    assert_eq!(words, vec![0x8005, 0x2000, 0x1000]);
    assert_eq!(opcode_of(words[0]), 8);
    assert_eq!(field_a(words[0]), 0);
    assert_eq!(low_byte(words[0]), 5);
}

#[test]
fn assembling_twice_gives_the_same_words() {
    let first = Assembler::new(Backend::BatPU2, sample()).assemble().result;
    let second = Assembler::new(Backend::BatPU2, sample()).assemble().result;
    assert_eq!(first, second);
}

#[test]
fn defining_a_constant_twice_is_reported_at_the_second_place() {
    let mut program = ParsedProgram::new();
    program.define("X".to_string(), 1, at(0, 10));
    program.define("X".to_string(), 2, at(11, 21));
    program.emit(
        OperationWithArgs::RegisterImmediate(
            Operation::Ldi,
            1,
            Immediate::Define("X".to_string()),
        ),
        at(22, 31),
    );
    program.emit(
        OperationWithArgs::RegisterImmediate(
            Operation::Ldi,
            16,
            Immediate::Value(0),
        ),
        at(32, 42),
    );
    assert_eq!(
        program.errors,
        vec![ParserError::DuplicateDefine(at(11, 21), "X".to_string())]
    );
    assert_eq!(program.defines.get(&"X".to_string()), Some(1));
    let done = Assembler::new(Backend::BatPU2, program).assemble();
    assert_eq!(
        done.result,
        Err(vec![
            AssemblerError::ParserError(ParserError::DuplicateDefine(at(11, 21), "X".to_string())),
            AssemblerError::InvalidRegister(at(32, 42), RegisterError::InvalidBatPU2(16)),
        ])
    );
    assert_eq!(done.defines.get(&"X".to_string()), Some(1));
}

#[test]
fn every_duplicate_label_is_reported_in_order() {
    let mut program = ParsedProgram::new();
    program.label("a".to_string(), at(0, 2));
    program.emit(OperationWithArgs::Bare(Operation::Nop), at(3, 6));
    program.label("a".to_string(), at(7, 9));
    program.label("b".to_string(), at(10, 12));
    program.label("a".to_string(), at(13, 15));
    program.emit(OperationWithArgs::Bare(Operation::Nop), at(16, 19));
    program.label("b".to_string(), at(20, 22));
    let expected = vec![
        ParserError::DuplicateLabel(at(7, 9), "a".to_string()),
        ParserError::DuplicateLabel(at(13, 15), "a".to_string()),
        ParserError::DuplicateLabel(at(20, 22), "b".to_string()),
    ];
    assert_eq!(program.errors, expected);
    let done = Assembler::new(Backend::BatPU2, program).assemble();
    let wrapped: Vec<AssemblerError> =
        expected.into_iter().map(AssemblerError::ParserError).collect();
    assert_eq!(done.result, Err(wrapped));
}

#[test]
fn every_failing_operation_is_reported_in_order() {
    let mut program = ParsedProgram::new();
    program.emit(OperationWithArgs::Jump(Operation::Jmp, Address::Label("x".to_string())), at(0, 5));
    program.emit(OperationWithArgs::Bare(Operation::Nop), at(6, 9));
    program.emit(OperationWithArgs::Register1(Operation::Inc, 1), at(10, 16));
    program.emit(
        OperationWithArgs::RegisterImmediate(Operation::Adi, 1, Immediate::Define("N".to_string())),
        at(17, 25),
    );
    let done = Assembler::new(Backend::BatPU2, program).assemble();
    assert_eq!(
        done.result,
        Err(vec![
            AssemblerError::LabelNotFound(at(0, 5), "x".to_string()),
            AssemblerError::UnsupportedOperation(at(10, 16), Operation::Inc),
            AssemblerError::DefineNotFound(at(17, 25), "N".to_string()),
        ])
    );
}

#[test]
fn labels_stand_for_the_position_of_the_next_operation() {
    let mut program = ParsedProgram::new();
    program.label("start".to_string(), at(0, 6));
    program.emit(OperationWithArgs::Bare(Operation::Nop), at(7, 10));
    program.emit(
        OperationWithArgs::Jump(Operation::Jmp, Address::Label("end".to_string())),
        at(11, 18),
    );
    program.label("end".to_string(), at(19, 23));
    program.emit(
        OperationWithArgs::Branch(
            Operation::Brh,
            Condition::NotEqual,
            Address::Label("start".to_string()),
        ),
        at(24, 40),
    );
    program.label("after".to_string(), at(41, 47));
    assert_eq!(program.labels.get(&"start".to_string()), Some(0));
    assert_eq!(program.labels.get(&"end".to_string()), Some(2));
    assert_eq!(program.labels.get(&"end".to_string()), Some(2));
    assert_eq!(program.labels.get(&"after".to_string()), Some(3));
    assert_eq!(program.labels.get(&"nowhere".to_string()), None);
    let done = Assembler::new(Backend::BatPU2, program).assemble();
    let words = done.result.expect("the program assembles");
    assert_eq!(words, vec![0x0000, 0xA002, 0xB400]);
    assert_eq!(address_of(words[1]), 2);
    assert_eq!(condition_of(words[2]), 1);
    assert_eq!(done.labels.get(&"end".to_string()), Some(2));
}

#[test]
fn an_empty_program_gives_no_words() {
    let done = Assembler::new(Backend::TauAnalyzersNone, ParsedProgram::new()).assemble();
    assert_eq!(done.result, Ok(vec![]));
}

#[test]
fn register_boundary_of_the_sixteen_register_backend() {
    assert_eq!(Register::batpu2(15).map(|r| r.value()), Ok(15));
    assert_eq!(Register::batpu2(16), Err(RegisterError::InvalidBatPU2(16)));
    assert_eq!(Backend::BatPU2.register(15).map(|r| r.value()), Ok(15));
    assert_eq!(Backend::BatPU2.register(16), Err(RegisterError::InvalidBatPU2(16)));
    assert_eq!(check_register(Backend::BatPU2, 15, at(0, 3)), Ok(15));
    assert_eq!(
        check_register(Backend::BatPU2, 16, at(0, 3)),
        Err(AssemblerError::InvalidRegister(at(0, 3), RegisterError::InvalidBatPU2(16)))
    );
}

#[test]
fn register_boundary_of_the_four_register_backend() {
    assert_eq!(Register::tau(3).map(|r| r.value()), Ok(3));
    assert_eq!(Register::tau(4), Err(RegisterError::InvalidTauAnalyzers(4)));
    assert_eq!(Register::tau(15), Err(RegisterError::InvalidTauAnalyzers(15)));
    assert_eq!(Backend::TauAnalyzersNone.register(3).map(|r| r.value()), Ok(3));
    assert_eq!(
        check_register(Backend::TauAnalyzersNone, 4, at(1, 2)),
        Err(AssemblerError::InvalidRegister(at(1, 2), RegisterError::InvalidTauAnalyzers(4)))
    );
}

#[test]
fn registers_keep_their_value_and_backend() {
    for val in 0..=15u8 {
        let register = Register::batpu2(val).expect("in range");
        assert_eq!(register.value(), val);
        assert!(matches!(register, Register::BatPU2(_)));
    }
    for val in 0..=3u8 {
        let register = Register::tau(val).expect("in range");
        assert_eq!(register.value(), val);
        assert!(matches!(register, Register::TauAnalyzers(_)));
    }
    assert_ne!(Register::batpu2(1), Register::batpu2(2));
}

#[test]
fn register_error_messages() {
    assert_eq!(
        RegisterError::InvalidBatPU2(16).message(),
        "Invalid BatPU2 register: r16 (valid: r0-r15)"
    );
    assert_eq!(
        RegisterError::InvalidTauAnalyzers(200).message(),
        "Invalid TauAnalyzers register: r200 (valid: r0-r3)"
    );
}

#[test]
fn backend_names_and_sizes() {
    assert_eq!(Backend::BatPU2.to_str(), "batpu2-mattbatwings-none");
    assert_eq!(Backend::TauAnalyzersNone.to_str(), "tau-analyzers-none");
    assert_eq!(Backend::value_variants(), vec![Backend::BatPU2, Backend::TauAnalyzersNone]);
    assert_eq!(Backend::BatPU2.register_bits(), 4);
    assert_eq!(Backend::BatPU2.register_count(), 16);
    assert_eq!(Backend::TauAnalyzersNone.register_bits(), 2);
    assert_eq!(Backend::TauAnalyzersNone.register_count(), 4);
}

#[test]
fn backend_from_extension() {
    assert_eq!(Backend::from_extension("tasm"), Some(Backend::TauAnalyzersNone));
    assert_eq!(Backend::from_extension("TaSm"), Some(Backend::TauAnalyzersNone));
    assert_eq!(Backend::from_extension("smc"), Some(Backend::BatPU2));
    assert_eq!(Backend::from_extension("SMC"), Some(Backend::BatPU2));
    assert_eq!(Backend::from_extension("asm"), None);
    assert_eq!(Backend::from_extension("smcx"), None);
    assert_eq!(Backend::from_extension(""), None);
    assert_eq!(Backend::from_extension("sm\u{43}\u{301}"), None);
}

#[test]
fn layouts_pack_and_read_back() {
    let word = three_fields(2, 1, 2, 3);
    assert_eq!(word, 0x2123);
    assert_eq!((opcode_of(word), field_a(word), field_b(word), field_c(word)), (2, 1, 2, 3));
    let word = field_and_byte(8, 15, 0xAB);
    assert_eq!(word, 0x8FAB);
    assert_eq!((opcode_of(word), field_a(word), low_byte(word)), (8, 15, 0xAB));
    let word = condition_and_address(11, 3, 4);
    assert_eq!(word, 0xBC04);
    assert_eq!((opcode_of(word), condition_of(word), address_of(word)), (11, 3, 4));
    let word = assemble_2reg(3, 1);
    assert_eq!(word, 0x0301);
    assert_eq!((high_byte(word), low_byte(word)), (3, 1));
    assert_eq!(assemble_2reg(255, 254), 0xFFFE);
}

#[test]
fn field_ranges() {
    let span = at(2, 4);
    assert_eq!(check_immediate(255, span), Ok(255));
    assert_eq!(check_immediate(0, span), Ok(0));
    assert_eq!(check_immediate(-1, span), Ok(255));
    assert_eq!(check_immediate(-128, span), Ok(128));
    assert_eq!(check_immediate(256, span), Err(AssemblerError::ImmediateOutOfRange(span, 256)));
    assert_eq!(check_immediate(-129, span), Err(AssemblerError::ImmediateOutOfRange(span, -129)));
    assert_eq!(check_address(0, span), Ok(0));
    assert_eq!(check_address(1023, span), Ok(1023));
    assert_eq!(check_address(1024, span), Err(AssemblerError::AddressOutOfRange(span, 1024)));
    assert_eq!(check_address(-1, span), Err(AssemblerError::AddressOutOfRange(span, -1)));
    assert_eq!(check_offset(7, span), Ok(7));
    assert_eq!(check_offset(-8, span), Ok(8));
    assert_eq!(check_offset(-1, span), Ok(15));
    assert_eq!(check_offset(8, span), Err(AssemblerError::OffsetOutOfRange(span, 8)));
    assert_eq!(check_offset(-9, span), Err(AssemblerError::OffsetOutOfRange(span, -9)));
    assert_eq!(check_condition(Condition::Equal, span), Ok(0));
    assert_eq!(check_condition(Condition::NotEqual, span), Ok(1));
    assert_eq!(check_condition(Condition::GreaterEqual, span), Ok(2));
    assert_eq!(check_condition(Condition::Less, span), Ok(3));
    assert_eq!(
        check_condition(Condition::Negative, span),
        Err(AssemblerError::InvalidCondition(span, Condition::Negative))
    );
}

#[test]
fn names_are_resolved_from_the_tables() {
    let span = at(0, 1);
    let mut table = SymbolTable::new();
    assert!(table.declare("ten".to_string(), 10, at(0, 3)));
    assert!(table.declare("two".to_string(), 2, at(4, 7)));
    assert!(!table.declare("ten".to_string(), 11, at(8, 11)));
    assert_eq!(table.len(), 2);
    assert_eq!(table.get(&"ten".to_string()), Some(10));
    assert_eq!(resolve_immediate(&table, &Immediate::Value(-3), span), Ok(-3));
    assert_eq!(resolve_immediate(&table, &Immediate::Define("two".to_string()), span), Ok(2));
    assert_eq!(
        resolve_immediate(&table, &Immediate::Define("six".to_string()), span),
        Err(AssemblerError::DefineNotFound(span, "six".to_string()))
    );
    assert_eq!(resolve_address(&table, &Address::Value(7), span), Ok(7));
    assert_eq!(resolve_address(&table, &Address::Label("ten".to_string()), span), Ok(10));
    assert_eq!(
        resolve_address(&table, &Address::Label("six".to_string()), span),
        Err(AssemblerError::LabelNotFound(span, "six".to_string()))
    );
}

#[test]
fn encodings_of_the_sixteen_register_backend() {
    let none = SymbolTable::new();
    let span = at(0, 1);
    let word = |operation: OperationWithArgs| encode_batpu2(&none, &none, &operation, span);
    assert_eq!(word(OperationWithArgs::Bare(Operation::Nop)), Ok(0x0000));
    assert_eq!(word(OperationWithArgs::Bare(Operation::Ret)), Ok(0xD000));
    assert_eq!(word(OperationWithArgs::Registers3(Operation::Xor, 15, 0, 9)), Ok(0x6F09));
    assert_eq!(word(OperationWithArgs::Registers2(Operation::Sub, 1, 2)), Ok(0x3122));
    assert_eq!(word(OperationWithArgs::Registers2(Operation::Rsh, 4, 5)), Ok(0x7405));
    assert_eq!(
        word(OperationWithArgs::RegisterImmediate(Operation::Ldi, 15, Immediate::Value(-1))),
        Ok(0x8FFF)
    );
    assert_eq!(word(OperationWithArgs::Jump(Operation::Cal, Address::Value(1023))), Ok(0xC3FF));
    assert_eq!(
        word(OperationWithArgs::Branch(Operation::Brh, Condition::Less, Address::Value(4))),
        Ok(0xBC04)
    );
    assert_eq!(word(OperationWithArgs::Memory(Operation::Lod, 1, 2, -8)), Ok(0xE128));
    assert_eq!(word(OperationWithArgs::Memory(Operation::Str, 1, 2, 7)), Ok(0xF127));
}

#[test]
fn failures_of_the_sixteen_register_backend() {
    let none = SymbolTable::new();
    let span = at(3, 8);
    let word = |operation: OperationWithArgs| encode_batpu2(&none, &none, &operation, span);
    assert_eq!(
        word(OperationWithArgs::Bare(Operation::Clr)),
        Err(AssemblerError::UnsupportedOperation(span, Operation::Clr))
    );
    assert_eq!(
        word(OperationWithArgs::Bare(Operation::Add)),
        Err(AssemblerError::UnsupportedOperation(span, Operation::Add))
    );
    assert_eq!(
        word(OperationWithArgs::Registers3(Operation::Add, 1, 16, 17)),
        Err(AssemblerError::InvalidRegister(span, RegisterError::InvalidBatPU2(16)))
    );
    assert_eq!(
        word(OperationWithArgs::RegisterImmediate(Operation::Ldi, 1, Immediate::Value(256))),
        Err(AssemblerError::ImmediateOutOfRange(span, 256))
    );
    assert_eq!(
        word(OperationWithArgs::Jump(Operation::Jmp, Address::Value(1024))),
        Err(AssemblerError::AddressOutOfRange(span, 1024))
    );
    assert_eq!(
        word(OperationWithArgs::Branch(Operation::Brh, Condition::NotZero, Address::Value(1))),
        Err(AssemblerError::InvalidCondition(span, Condition::NotZero))
    );
    assert_eq!(
        word(OperationWithArgs::Memory(Operation::Lod, 1, 2, 8)),
        Err(AssemblerError::OffsetOutOfRange(span, 8))
    );
}

#[test]
fn the_four_register_backend_encodes_the_register_copy() {
    let none = SymbolTable::new();
    let span = at(0, 9);
    let copy = OperationWithArgs::Registers2(Operation::Cpy, 3, 1);
    assert_eq!(encode_tau(&copy, span), Ok(0x0301));
    assert_eq!(encode(Backend::TauAnalyzersNone, &none, &none, &copy, span), Ok(0x0301));
    assert_eq!(assemble_operation(&none, &none, copy, span), Ok(vec![3, 1]));
    assert_eq!(
        assemble_operation(&none, &none, OperationWithArgs::Registers2(Operation::Cpy, 4, 1), span),
        Err(AssemblerError::InvalidRegister(span, RegisterError::InvalidTauAnalyzers(4)))
    );
    assert_eq!(
        assemble_operation(&none, &none, OperationWithArgs::Bare(Operation::Hlt), span),
        Err(AssemblerError::UnsupportedOperation(span, Operation::Hlt))
    );
    assert_eq!(
        encode(Backend::BatPU2, &none, &none, &OperationWithArgs::Registers2(Operation::Cpy, 3, 1), span),
        Err(AssemblerError::UnsupportedOperation(span, Operation::Cpy))
    );
}

#[test]
fn a_register_valid_on_one_backend_is_not_wrapped_on_the_other() {
    let mut program = ParsedProgram::new();
    program.emit(OperationWithArgs::Registers2(Operation::Cpy, 15, 0), at(0, 11));
    let done = Assembler::new(Backend::TauAnalyzersNone, program).assemble();
    assert_eq!(
        done.result,
        Err(vec![AssemblerError::InvalidRegister(
            at(0, 11),
            RegisterError::InvalidTauAnalyzers(15)
        )])
    );
}

#[test]
fn errors_know_their_span() {
    let span = at(4, 9);
    assert_eq!(LexerError::UnexpectedCharacter(span, '$').span(), span);
    assert_eq!(LexerError::InvalidNumber(span, "0x".to_string()).span(), span);
    assert_eq!(ParserError::UnexpectedEof(span).span(), span);
    assert_eq!(
        ParserError::SyntaxError(LexerError::UnknownCondition(span, "zz".to_string())).span(),
        span
    );
    assert_eq!(ParserError::InvalidSkip(span, 9).span(), span);
    assert_eq!(AssemblerError::AddressOutOfRange(span, 2000).span(), span);
    assert_eq!(
        AssemblerError::ParserError(ParserError::DuplicateLabel(span, "a".to_string())).span(),
        span
    );
    let error = ParserError::ExpectedButReceived(span, Expected::Register, TokenKind::Comma);
    assert_eq!(error.duplicate(), error);
}

#[test]
fn words_as_binary_digits() {
    assert_eq!(binary_word(0x8005), "1000000000000101");
    assert_eq!(binary_word(0), "0000000000000000");
    assert_eq!(binary_word(0xFFFF), "1111111111111111");
    assert_eq!(binary_word(1), format!("{:08b}{:08b}", 0u8, 1u8));
}

#[test]
fn protocol_ranges_count_from_zero() {
    let text = "nop\n  jmp x";
    assert_eq!(Span::new(6, 9).protocol_range(text), ((1, 2), (1, 5)));
    assert_eq!(Span::new(0, 4).protocol_range(text), ((0, 0), (1, 0)));
    assert_eq!(Span::zero_based(1), 0);
    assert_eq!(Span::zero_based(0), 0);
    assert_eq!(Span::zero_based(42), 41);
}

#[test]
fn tokens_pair_with_their_span() {
    let paired = TokenSpan::new(Token::Register(RegisterToken(3)), at(4, 6));
    assert_eq!(paired.token, Token::Register(RegisterToken(3)));
    assert_eq!(paired.span, at(4, 6));
    assert_eq!(RegisterToken::r0(), RegisterToken(0));
    let word = TokenSpan::new(Token::Keyword(Keyword::Operation(Operation::Ldi)), at(0, 3));
    assert_ne!(word, TokenSpan::new(Token::Keyword(Keyword::Define), at(0, 3)));
    assert_eq!(OperationWithArgs::Bare(Operation::Hlt).mnemonic(), Operation::Hlt);
}
