use smc_assembler::assembler::AssemblerError;
use smc_assembler::backends::{Backend, RegisterError};
use smc_assembler::compile::{compile, is_countable};
use smc_assembler::keywords::{find_keyword, spells_word};
use smc_assembler::layout::{field_a, low_byte};
use smc_assembler::lexer::lex;
use smc_assembler::parser::{
    kind, parse, read_statement, shape, Address, Expected, Immediate, LexerError,
    OperationWithArgs, ParserError, Shape, Statement, TokenKind,
};
use smc_assembler::session::Session;
use smc_assembler::span::Span;
use smc_assembler::token::{Condition, Keyword, Operation, Register, Token, TokenSpan};

const PROGRAM: &str = "ldi r0, 5\nadd r0, r0\nhlt";

fn token(token: Token, start: usize, end: usize) -> Result<TokenSpan, LexerError> {
    Ok(TokenSpan::new(token, Span::new(start, end)))
}

fn operation(op: Operation) -> Token {
    Token::Keyword(Keyword::Operation(op))
}

#[test]
fn lexes_a_small_program() {
    assert_eq!(
        lex(PROGRAM),
        vec![
            token(operation(Operation::Ldi), 0, 3),
            token(Token::Register(Register(0)), 4, 6),
            token(Token::Comma, 6, 7),
            token(Token::Number(5), 8, 9),
            token(operation(Operation::Add), 10, 13),
            token(Token::Register(Register(0)), 14, 16),
            token(Token::Comma, 16, 17),
            token(Token::Register(Register(0)), 18, 20),
            token(operation(Operation::Hlt), 21, 24),
            token(Token::Eof, 24, 24),
        ]
    );
}

#[test]
fn lexes_the_empty_text() {
    assert_eq!(lex(""), vec![token(Token::Eof, 0, 0)]);
    assert_eq!(lex("  ; nothing\n"), vec![token(Token::Eof, 12, 12)]);
}

#[test]
fn lexes_labels_and_comments() {
    assert_eq!(
        lex("loop: jmp loop ; again, and again\n.end:"),
        vec![
            token(Token::Label("loop".to_string()), 0, 5),
            token(operation(Operation::Jmp), 6, 9),
            token(Token::Identifier("loop".to_string()), 10, 14),
            token(Token::Label(".end".to_string()), 34, 39),
            token(Token::Eof, 39, 39),
        ]
    );
}

#[test]
fn lexes_numbers_of_each_base() {
    let items = lex("0x1F -3 0b101 007 12a 99999999999999999999 - 0x 9223372036854775807");
    let expected = vec![
        token(Token::Number(31), 0, 4),
        token(Token::Number(-3), 5, 7),
        token(Token::Number(5), 8, 13),
        token(Token::Number(7), 14, 17),
        Err(LexerError::InvalidNumber(Span::new(18, 21), "12a".to_string())),
        Err(LexerError::InvalidNumber(Span::new(22, 42), "99999999999999999999".to_string())),
        Err(LexerError::InvalidNumber(Span::new(43, 44), "-".to_string())),
        Err(LexerError::InvalidNumber(Span::new(45, 47), "0x".to_string())),
        token(Token::Number(i64::MAX), 48, 67),
        token(Token::Eof, 67, 67),
    ];
    assert_eq!(items, expected);
}

#[test]
fn lexes_registers() {
    assert_eq!(
        lex("r15 R3 r255 r256 r1x r"),
        vec![
            token(Token::Register(Register(15)), 0, 3),
            token(Token::Register(Register(3)), 4, 6),
            token(Token::Register(Register(255)), 7, 11),
            Err(LexerError::InvalidRegisterNumber(Span::new(12, 16), "r256".to_string())),
            token(Token::Identifier("r1x".to_string()), 17, 20),
            token(Token::Identifier("r".to_string()), 21, 22),
            token(Token::Eof, 22, 22),
        ]
    );
}

#[test]
fn lexes_keywords_in_any_case() {
    assert_eq!(
        lex("LDI Define eQ cmp"),
        vec![
            token(operation(Operation::Ldi), 0, 3),
            token(Token::Keyword(Keyword::Define), 4, 10),
            token(Token::Keyword(Keyword::Condition(Condition::Equal)), 11, 13),
            token(operation(Operation::Cmp), 14, 17),
            token(Token::Eof, 17, 17),
        ]
    );
}

#[test]
fn goes_on_behind_an_unexpected_character() {
    assert_eq!(
        lex("nop $ hlt @"),
        vec![
            token(operation(Operation::Nop), 0, 3),
            Err(LexerError::UnexpectedCharacter(Span::new(4, 5), '$')),
            token(operation(Operation::Hlt), 6, 9),
            Err(LexerError::UnexpectedCharacter(Span::new(10, 11), '@')),
            token(Token::Eof, 11, 11),
        ]
    );
}

#[test]
fn words_may_hold_characters_beyond_ascii() {
    assert_eq!(
        lex("caf\u{e9}, \u{e9}t\u{e9}: ; \u{e9}\nx"),
        vec![
            token(Token::Identifier("caf\u{e9}".to_string()), 0, 5),
            token(Token::Comma, 5, 6),
            token(Token::Label("\u{e9}t\u{e9}".to_string()), 7, 13),
            token(Token::Identifier("x".to_string()), 19, 20),
            token(Token::Eof, 20, 20),
        ]
    );
}

#[test]
fn token_texts_are_the_source_without_blanks_and_comments() {
    let source = "start: ldi r1, 0x10 ; load\n\tadd r1, r2, r3\n; done\nhlt";
    let mut text = String::new();
    for item in lex(source) {
        let span = item.expect("the text lexes").span;
        text.push_str(span.snippet(source));
    }
    assert_eq!(text, "start:ldir1,0x10addr1,r2,r3hlt");
}

#[test]
fn keyword_table() {
    assert_eq!(find_keyword(b"brh", 0, 3), Some(Keyword::Operation(Operation::Brh)));
    assert_eq!(find_keyword(b"xx or yy", 3, 5), Some(Keyword::Operation(Operation::Or)));
    assert_eq!(find_keyword(b"pl", 0, 2), Some(Keyword::Condition(Condition::NotNegative)));
    assert_eq!(find_keyword(b"define", 0, 6), Some(Keyword::Define));
    assert_eq!(find_keyword(b"defined", 0, 7), None);
    assert_eq!(find_keyword(b"", 0, 0), None);
    assert!(spells_word(b"HlT", 0, 3, "hlt"));
    assert!(!spells_word(b"hlt", 0, 2, "hlt"));
    assert!(!spells_word(b"hlu", 0, 3, "hlt"));
}

#[test]
fn shapes_and_kinds() {
    assert_eq!(shape(Operation::Hlt), Shape::Bare);
    assert_eq!(shape(Operation::Inc), Shape::Register1);
    assert_eq!(shape(Operation::Cpy), Shape::Registers2);
    assert_eq!(shape(Operation::Add), Shape::Arithmetic);
    assert_eq!(shape(Operation::Ldi), Shape::RegisterImmediate);
    assert_eq!(shape(Operation::Jmp), Shape::Jump);
    assert_eq!(shape(Operation::Brh), Shape::Branch);
    assert_eq!(shape(Operation::Str), Shape::Memory);
    assert_eq!(kind(&Token::Comma), TokenKind::Comma);
    assert_eq!(kind(&Token::Label("a".to_string())), TokenKind::Label);
    assert_eq!(kind(&Token::Eof), TokenKind::Eof);
}

#[test]
fn parses_each_shape() {
    let source = "nop\ninc r1\nrsh r1, r2\nadd r1, r2, r3\nsub r4, r5\nadi r1, N\n\
                  jmp top\nbrh ne, 12\nlod r1, r2, -3";
    let program = parse(&lex(source));
    assert_eq!(program.errors, vec![]);
    let operations: Vec<OperationWithArgs> =
        program.operations.iter().map(|entry| entry.0.clone()).collect();
    assert_eq!(
        operations,
        vec![
            OperationWithArgs::Bare(Operation::Nop),
            OperationWithArgs::Register1(Operation::Inc, 1),
            OperationWithArgs::Registers2(Operation::Rsh, 1, 2),
            OperationWithArgs::Registers3(Operation::Add, 1, 2, 3),
            OperationWithArgs::Registers2(Operation::Sub, 4, 5),
            OperationWithArgs::RegisterImmediate(
                Operation::Adi,
                1,
                Immediate::Define("N".to_string())
            ),
            OperationWithArgs::Jump(Operation::Jmp, Address::Label("top".to_string())),
            OperationWithArgs::Branch(Operation::Brh, Condition::NotEqual, Address::Value(12)),
            OperationWithArgs::Memory(Operation::Lod, 1, 2, -3),
        ]
    );
    assert_eq!(program.operations[3].1, Span::new(22, 25));
}

#[test]
fn parses_defines_and_labels() {
    let program = parse(&lex("define TEN 10\nstart:\nldi r1, TEN\nend:\n"));
    assert_eq!(program.errors, vec![]);
    assert_eq!(program.defines.get(&"TEN".to_string()), Some(10));
    assert_eq!(program.labels.get(&"start".to_string()), Some(0));
    assert_eq!(program.labels.get(&"end".to_string()), Some(1));
    assert_eq!(program.operations.len(), 1);
}

#[test]
fn reads_one_statement_at_a_time() {
    let items = lex("ldi r1\nhlt");
    assert_eq!(
        read_statement(&items, 0),
        (
            Statement::Error(ParserError::ExpectedButReceived(
                Span::new(7, 10),
                Expected::Comma,
                TokenKind::Keyword
            )),
            2
        )
    );
    assert_eq!(
        read_statement(&items, 2),
        (Statement::Emit(OperationWithArgs::Bare(Operation::Hlt), Span::new(7, 10)), 3)
    );
}

#[test]
fn parsing_goes_on_behind_each_error() {
    let source = "ldi r1\nadd r1, r2, r3\nfoo\n$\nbrh r1, 3 4\nlod r1, r2, x\ndefine 5\njmp";
    let program = parse(&lex(source));
    assert_eq!(
        program.errors,
        vec![
            ParserError::ExpectedButReceived(Span::new(7, 10), Expected::Comma, TokenKind::Keyword),
            ParserError::ExpectedButReceived(
                Span::new(22, 25),
                Expected::Statement,
                TokenKind::Identifier
            ),
            ParserError::SyntaxError(LexerError::UnexpectedCharacter(Span::new(26, 27), '$')),
            ParserError::ExpectedButReceived(
                Span::new(32, 34),
                Expected::Condition,
                TokenKind::Register
            ),
            ParserError::ExpectedButReceived(
                Span::new(52, 53),
                Expected::Number,
                TokenKind::Identifier
            ),
            ParserError::ExpectedButReceived(Span::new(61, 62), Expected::Name, TokenKind::Number),
            ParserError::UnexpectedEof(Span::new(66, 66)),
        ]
    );
    assert_eq!(program.operations.len(), 1);
}

#[test]
fn compiles_three_operations_to_three_words() {
    let done = compile(PROGRAM, Backend::BatPU2).expect("the text is short");
    let words = done.result.expect("the program compiles");
    assert_eq!(words, vec![0x8005, 0x2000, 0x1000]);
    assert_eq!(field_a(words[0]), 0);
    assert_eq!(low_byte(words[0]), 5);
}

#[test]
fn compiling_twice_gives_the_same_result() {
    let source = "define N 3\ntop: ldi r1, N\nbrh lt, top\njmp nowhere\n";
    for backend in Backend::value_variants() {
        let first = compile(source, backend).expect("the text is short").result;
        let second = compile(source, backend).expect("the text is short").result;
        assert_eq!(first, second);
    }
}

#[test]
fn a_constant_defined_twice_is_one_error_among_all() {
    let source = "define X 1\ndefine X 2\nldi r1, X\nldi r16, Y\nhlt";
    let done = compile(source, Backend::BatPU2).expect("the text is short");
    assert_eq!(
        done.result,
        Err(vec![
            AssemblerError::ParserError(ParserError::DuplicateDefine(
                Span::new(18, 19),
                "X".to_string()
            )),
            AssemblerError::InvalidRegister(Span::new(32, 35), RegisterError::InvalidBatPU2(16)),
        ])
    );
    assert_eq!(done.defines.get(&"X".to_string()), Some(1));
}

#[test]
fn each_duplicate_label_is_reported_once_in_source_order() {
    let source = "a:\nnop\na:\nb:\na:\nb:\nhlt\na:";
    let done = compile(source, Backend::BatPU2).expect("the text is short");
    assert_eq!(
        done.result,
        Err(vec![
            AssemblerError::ParserError(ParserError::DuplicateLabel(
                Span::new(7, 9),
                "a".to_string()
            )),
            AssemblerError::ParserError(ParserError::DuplicateLabel(
                Span::new(13, 15),
                "a".to_string()
            )),
            AssemblerError::ParserError(ParserError::DuplicateLabel(
                Span::new(16, 18),
                "b".to_string()
            )),
            AssemblerError::ParserError(ParserError::DuplicateLabel(
                Span::new(23, 25),
                "a".to_string()
            )),
        ])
    );
}

#[test]
fn labels_resolve_forward_and_backward() {
    let source = "top:\nnop\njmp end\nbrh eq, top\nend:\nhlt";
    let done = compile(source, Backend::BatPU2).expect("the text is short");
    assert_eq!(done.result, Ok(vec![0x0000, 0xA003, 0xB000, 0x1000]));
    assert_eq!(done.labels.get(&"end".to_string()), Some(3));
}

#[test]
fn register_boundaries_through_the_pipeline() {
    let ok = compile("add r15, r15, r15", Backend::BatPU2).expect("short").result;
    assert_eq!(ok, Ok(vec![0x2FFF]));
    let bad = compile("add r15, r16, r15", Backend::BatPU2).expect("short").result;
    assert_eq!(
        bad,
        Err(vec![AssemblerError::InvalidRegister(
            Span::new(0, 3),
            RegisterError::InvalidBatPU2(16)
        )])
    );
    let ok = compile("cpy r3, r0", Backend::TauAnalyzersNone).expect("short").result;
    assert_eq!(ok, Ok(vec![0x0300]));
    let bad = compile("cpy r4, r0", Backend::TauAnalyzersNone).expect("short").result;
    assert_eq!(
        bad,
        Err(vec![AssemblerError::InvalidRegister(
            Span::new(0, 3),
            RegisterError::InvalidTauAnalyzers(4)
        )])
    );
}

#[test]
fn a_backend_refuses_what_it_does_not_encode() {
    let done = compile("hlt\ncpy r1, r2", Backend::TauAnalyzersNone).expect("short");
    assert_eq!(
        done.result,
        Err(vec![AssemblerError::UnsupportedOperation(Span::new(0, 3), Operation::Hlt)])
    );
}

#[test]
fn short_streams_are_countable() {
    assert!(is_countable(&lex("nop")));
    assert!(is_countable(&Vec::new()));
}

#[test]
fn the_last_change_wins_whatever_arrives_first() {
    let mut session = Session::new();
    let first = session.begin().expect("tickets are left");
    let second = session.begin().expect("tickets are left");
    assert_eq!((first, second), (1, 2));
    assert!(session.finish(second));
    assert!(!session.finish(first));
    assert_eq!(session.installed(), 2);
    assert_eq!(session.issued(), 2);
    let mut session = Session::new();
    let first = session.begin().expect("tickets are left");
    let second = session.begin().expect("tickets are left");
    assert!(session.finish(first));
    assert!(session.finish(second));
    assert!(!session.finish(second));
    assert!(!session.finish(7));
    assert_eq!(session.installed(), 2);
}
