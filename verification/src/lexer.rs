//! The lexer: source text to positioned tokens. A malformed piece of text
//! becomes an error in place of a token, and the scan goes on behind it.

use vstd::prelude::*;
use vstd::string::*;
use vstd::utf8::*;

use crate::keywords::{find_keyword, keyword_at};
use crate::parser::LexerError;
use crate::span::Span;
use crate::token::{Keyword, Register, Token, TokenSpan};

verus! {

/// Space, tab, carriage return or line feed.
pub open spec fn is_blank(b: u8) -> bool {
    b == 32 || b == 9 || b == 13 || b == 10
}

pub open spec fn is_digit(b: u8) -> bool {
    48 <= b <= 57
}

/// A byte that a word can hold: a letter, a digit, `_`, `.`, `-`, or any
/// byte of a character beyond ASCII.
pub open spec fn is_word_byte(b: u8) -> bool {
    is_digit(b) || 65 <= b <= 90 || 97 <= b <= 122 || b == 95 || b == 46 || b == 45 || b >= 128
}

/// A byte at which a word can begin: a word byte that does not continue a
/// character.
pub open spec fn starts_word(b: u8) -> bool {
    is_word_byte(b) && !is_continuation_byte(b)
}

/// Where the next token begins at or after `p`: blanks are passed over, and
/// so is a comment, from its `;` to the end of its line.
pub open spec fn skip_filler(bytes: Seq<u8>, p: int, in_comment: bool) -> int
    decreases bytes.len() - p,
{
    if p < 0 || p >= bytes.len() {
        bytes.len() as int
    } else if in_comment {
        skip_filler(bytes, p + 1, bytes[p] != 10u8)
    } else if is_blank(bytes[p]) {
        skip_filler(bytes, p + 1, false)
    } else if bytes[p] == 59u8 {
        skip_filler(bytes, p + 1, true)
    } else {
        p
    }
}

/// Where the run of word bytes that holds `p` stops.
pub open spec fn word_end(bytes: Seq<u8>, p: int) -> int
    decreases bytes.len() - p,
{
    if p < 0 || p >= bytes.len() {
        bytes.len() as int
    } else if is_word_byte(bytes[p]) {
        word_end(bytes, p + 1)
    } else {
        p
    }
}

/// Where the token that begins at `start` stops: a word runs as far as its
/// bytes go and takes a `:` right behind it along; anything else is one
/// byte.
pub open spec fn token_end(bytes: Seq<u8>, start: int) -> int {
    if starts_word(bytes[start]) {
        let stop = word_end(bytes, start);
        if stop < bytes.len() && bytes[stop] == 58u8 {
            stop + 1
        } else {
            stop
        }
    } else {
        start + 1
    }
}

/// The value of a digit, or 99 for a byte that is none.
pub open spec fn digit_value(b: u8) -> int {
    if 48 <= b <= 57 {
        b - 48
    } else if 97 <= b <= 102 {
        b - 87
    } else if 65 <= b <= 70 {
        b - 55
    } else {
        99
    }
}

/// Whether the bytes `lo..hi` are digits of `base`.
pub open spec fn all_digits(bytes: Seq<u8>, lo: int, hi: int, base: int) -> bool {
    forall|i: int| lo <= i < hi ==> digit_value(#[trigger] bytes[i]) < base
}

/// The number that the digits `lo..hi` write in `base`.
pub open spec fn radix_value(bytes: Seq<u8>, lo: int, hi: int, base: int) -> int
    decreases hi - lo,
{
    if hi <= lo {
        0
    } else {
        radix_value(bytes, lo, hi - 1, base) * base + digit_value(bytes[hi - 1])
    }
}

/// The number that `lo..hi` write in `base`, where they are at least one
/// digit, all of that base, and the number is at most `limit`.
pub open spec fn digits_at(bytes: Seq<u8>, lo: int, hi: int, base: int, limit: int) -> Option<int> {
    if lo < hi && all_digits(bytes, lo, hi, base) && radix_value(bytes, lo, hi, base) <= limit {
        Some(radix_value(bytes, lo, hi, base))
    } else {
        None
    }
}

/// The number that the word `lo..hi` writes: an optional `-`, an optional
/// `0x` or `0b`, then digits of base 16, 2 or 10, with a magnitude that a
/// signed 64-bit number holds.
pub open spec fn number_at(bytes: Seq<u8>, lo: int, hi: int) -> Option<i64> {
    let body = if bytes[lo] == 45u8 {
        lo + 1
    } else {
        lo
    };
    let prefixed = body + 2 <= hi && bytes[body] == 48u8;
    let hex = prefixed && (bytes[body + 1] == 120u8 || bytes[body + 1] == 88u8);
    let binary = prefixed && (bytes[body + 1] == 98u8 || bytes[body + 1] == 66u8);
    let base = if hex {
        16
    } else if binary {
        2
    } else {
        10int
    };
    let digits = if hex || binary {
        body + 2
    } else {
        body
    };
    match digits_at(bytes, digits, hi, base, i64::MAX as int) {
        Some(value) => Some(
            (if body > lo {
                -value
            } else {
                value
            }) as i64,
        ),
        None => None,
    }
}

/// What one piece of source text is, told apart from where it stands.
pub enum Lexeme {
    Keyword(Keyword),
    /// The name before the `:`.
    Label(Seq<u8>),
    Identifier(Seq<u8>),
    Number(i64),
    Comma,
    Eof,
    Register(u8),
    /// A word that begins like a number and is none.
    InvalidNumber(Seq<u8>),
    /// A register whose number no register token holds.
    InvalidRegisterNumber(Seq<u8>),
    /// A byte that begins no token.
    UnexpectedCharacter(u8),
    /// An error that reading a single piece of text does not give.
    Other,
}

/// What the text `lo..hi`, one token long, is.
#[verifier::opaque]
pub open spec fn classify(bytes: Seq<u8>, lo: int, hi: int) -> Lexeme {
    let first = bytes[lo];
    if !starts_word(first) {
        if first == 44u8 {
            Lexeme::Comma
        } else {
            Lexeme::UnexpectedCharacter(first)
        }
    } else if bytes[hi - 1] == 58u8 {
        Lexeme::Label(bytes.subrange(lo, hi - 1))
    } else if is_digit(first) || first == 45u8 {
        match number_at(bytes, lo, hi) {
            Some(value) => Lexeme::Number(value),
            None => Lexeme::InvalidNumber(bytes.subrange(lo, hi)),
        }
    } else if (first == 114u8 || first == 82u8) && lo + 1 < hi && all_digits(
        bytes,
        lo + 1,
        hi,
        10,
    ) {
        match digits_at(bytes, lo + 1, hi, 10, 255) {
            Some(value) => Lexeme::Register(value as u8),
            None => Lexeme::InvalidRegisterNumber(bytes.subrange(lo, hi)),
        }
    } else {
        match keyword_at(bytes, lo, hi) {
            Some(keyword) => Lexeme::Keyword(keyword),
            None => Lexeme::Identifier(bytes.subrange(lo, hi)),
        }
    }
}

/// A lexeme with the byte range it stands at.
pub struct Placed {
    pub lexeme: Lexeme,
    pub start: int,
    pub end: int,
}

/// The lexemes of the text from `p` on, in order, closed by the end of
/// input at the end of the text.
pub open spec fn lexemes_from(bytes: Seq<u8>, p: int) -> Seq<Placed>
    decreases bytes.len() - p,
{
    let start = skip_filler(bytes, p, false);
    if p < 0 || start >= bytes.len() || start < p {
        seq![Placed { lexeme: Lexeme::Eof, start: bytes.len() as int, end: bytes.len() as int }]
    } else {
        let end = token_end(bytes, start);
        if end <= start || end > bytes.len() {
            Seq::empty()
        } else {
            seq![Placed { lexeme: classify(bytes, start, end), start, end }] + lexemes_from(
                bytes,
                end,
            )
        }
    }
}

/// The lexemes of a whole text.
pub open spec fn lexemes(bytes: Seq<u8>) -> Seq<Placed> {
    lexemes_from(bytes, 0)
}

/// What a token is, its names as bytes.
pub open spec fn token_lexeme(token: Token) -> Lexeme {
    match token {
        Token::Keyword(keyword) => Lexeme::Keyword(keyword),
        Token::Label(name) => Lexeme::Label(encode_utf8(name@)),
        Token::Identifier(name) => Lexeme::Identifier(encode_utf8(name@)),
        Token::Number(value) => Lexeme::Number(value),
        Token::Comma => Lexeme::Comma,
        Token::Eof => Lexeme::Eof,
        Token::Register(register) => Lexeme::Register(register.0),
    }
}

/// What a lexical error is, its text as bytes.
pub open spec fn error_lexeme(error: LexerError) -> Lexeme {
    match error {
        LexerError::InvalidNumber(_, text) => Lexeme::InvalidNumber(encode_utf8(text@)),
        LexerError::InvalidRegisterNumber(_, text) => Lexeme::InvalidRegisterNumber(
            encode_utf8(text@),
        ),
        LexerError::UnexpectedCharacter(_, c) => if c as u32 <= 255 {
            Lexeme::UnexpectedCharacter(c as u8)
        } else {
            Lexeme::Other
        },
        _ => Lexeme::Other,
    }
}

/// One outcome of the lexer as a placed lexeme.
pub open spec fn placed(item: Result<TokenSpan, LexerError>) -> Placed {
    match item {
        Ok(paired) => Placed {
            lexeme: token_lexeme(paired.token),
            start: paired.span.spec_start() as int,
            end: paired.span.spec_end() as int,
        },
        Err(error) => Placed {
            lexeme: error_lexeme(error),
            start: error.spec_span().spec_start() as int,
            end: error.spec_span().spec_end() as int,
        },
    }
}

/// The outcomes of the lexer as placed lexemes.
pub open spec fn all_placed(items: Seq<Result<TokenSpan, LexerError>>) -> Seq<Placed> {
    Seq::new(items.len(), |i: int| placed(items[i]))
}

/// The filler ends inside the text at a byte that is neither blank nor the
/// start of a comment, or at the end of the text.
pub proof fn lemma_skip_filler_bounds(bytes: Seq<u8>, p: int, in_comment: bool)
    requires
        0 <= p <= bytes.len(),
    ensures
        p <= skip_filler(bytes, p, in_comment) <= bytes.len(),
        skip_filler(bytes, p, in_comment) < bytes.len() ==> !is_blank(
            bytes[skip_filler(bytes, p, in_comment)],
        ) && bytes[skip_filler(bytes, p, in_comment)] != 59u8,
    decreases bytes.len() - p,
{
    if p < bytes.len() {
        if in_comment {
            lemma_skip_filler_bounds(bytes, p + 1, bytes[p] != 10u8);
        } else if is_blank(bytes[p]) {
            lemma_skip_filler_bounds(bytes, p + 1, false);
        } else if bytes[p] == 59u8 {
            lemma_skip_filler_bounds(bytes, p + 1, true);
        }
    }
}

/// A word ends inside the text at a byte that is no word byte, or at the
/// end of the text, and holds word bytes only.
pub proof fn lemma_word_end_bounds(bytes: Seq<u8>, p: int)
    requires
        0 <= p <= bytes.len(),
    ensures
        p <= word_end(bytes, p) <= bytes.len(),
        word_end(bytes, p) < bytes.len() ==> !is_word_byte(bytes[word_end(bytes, p)]),
        forall|i: int| p <= i < word_end(bytes, p) ==> is_word_byte(#[trigger] bytes[i]),
    decreases bytes.len() - p,
{
    if p < bytes.len() && is_word_byte(bytes[p]) {
        lemma_word_end_bounds(bytes, p + 1);
    }
}

/// The text without its filler: blanks and comments taken out, every other
/// byte kept in place.
pub open spec fn without_filler(bytes: Seq<u8>, p: int, in_comment: bool) -> Seq<u8>
    decreases bytes.len() - p,
{
    if p < 0 || p >= bytes.len() {
        Seq::empty()
    } else if in_comment {
        without_filler(bytes, p + 1, bytes[p] != 10u8)
    } else if is_blank(bytes[p]) {
        without_filler(bytes, p + 1, false)
    } else if bytes[p] == 59u8 {
        without_filler(bytes, p + 1, true)
    } else {
        seq![bytes[p]] + without_filler(bytes, p + 1, false)
    }
}

/// The texts of the lexemes, one behind the other.
pub open spec fn joined(bytes: Seq<u8>, items: Seq<Placed>) -> Seq<u8>
    decreases items.len(),
{
    if items.len() == 0 {
        Seq::empty()
    } else {
        bytes.subrange(items[0].start, items[0].end) + joined(bytes, items.drop_first())
    }
}

proof fn lemma_filler_adds_nothing(bytes: Seq<u8>, p: int, in_comment: bool)
    requires
        0 <= p <= bytes.len(),
    ensures
        without_filler(bytes, p, in_comment) == without_filler(
            bytes,
            skip_filler(bytes, p, in_comment),
            false,
        ),
    decreases bytes.len() - p,
{
    if p < bytes.len() {
        if in_comment {
            lemma_filler_adds_nothing(bytes, p + 1, bytes[p] != 10u8);
        } else if is_blank(bytes[p]) {
            lemma_filler_adds_nothing(bytes, p + 1, false);
        } else if bytes[p] == 59u8 {
            lemma_filler_adds_nothing(bytes, p + 1, true);
        }
    }
}

proof fn lemma_word_is_kept(bytes: Seq<u8>, p: int, stop: int)
    requires
        0 <= p <= stop <= bytes.len(),
        forall|i: int| p <= i < stop ==> is_word_byte(#[trigger] bytes[i]),
    ensures
        without_filler(bytes, p, false) == bytes.subrange(p, stop) + without_filler(
            bytes,
            stop,
            false,
        ),
    decreases stop - p,
{
    if p < stop {
        lemma_word_is_kept(bytes, p + 1, stop);
        assert(is_word_byte(bytes[p]));
        assert(bytes.subrange(p, stop) =~= seq![bytes[p]] + bytes.subrange(p + 1, stop));
        assert(seq![bytes[p]] + (bytes.subrange(p + 1, stop) + without_filler(bytes, stop, false))
            =~= (seq![bytes[p]] + bytes.subrange(p + 1, stop)) + without_filler(
            bytes,
            stop,
            false,
        ));
    } else {
        assert(bytes.subrange(p, stop) + without_filler(bytes, stop, false) =~= without_filler(
            bytes,
            stop,
            false,
        ));
    }
}

/// The shape of a lexed text: it ends with the end of input, empty, at the
/// end of the text, and holds no other end of input; every other lexeme
/// covers a piece of the text that is not empty; and the pieces follow one
/// another without overlap.
pub proof fn lemma_lexemes_shape(bytes: Seq<u8>, p: int)
    requires
        0 <= p <= bytes.len(),
    ensures
        lexemes_from(bytes, p).len() >= 1,
        lexemes_from(bytes, p).last() == (Placed {
            lexeme: Lexeme::Eof,
            start: bytes.len() as int,
            end: bytes.len() as int,
        }),
        forall|i: int|
            0 <= i < lexemes_from(bytes, p).len() - 1 ==> {
                let item = #[trigger] lexemes_from(bytes, p)[i];
                item.lexeme != Lexeme::Eof && p <= item.start < item.end <= bytes.len()
            },
        forall|i: int|
            0 <= i < lexemes_from(bytes, p).len() - 1 ==> (#[trigger] lexemes_from(
                bytes,
                p,
            )[i]).end <= lexemes_from(bytes, p)[i + 1].start,
    decreases bytes.len() - p,
{
    reveal(classify);
    let start = skip_filler(bytes, p, false);
    lemma_skip_filler_bounds(bytes, p, false);
    let items = lexemes_from(bytes, p);
    if start < bytes.len() {
        let end = token_end(bytes, start);
        lemma_word_end_bounds(bytes, start);
        lemma_lexemes_shape(bytes, end);
        let rest = lexemes_from(bytes, end);
        let head = Placed { lexeme: classify(bytes, start, end), start, end };
        assert(items =~= seq![head] + rest);
        assert(items.last() == rest.last());
        assert forall|i: int| 0 <= i < items.len() - 1 implies {
            let item = #[trigger] items[i];
            item.lexeme != Lexeme::Eof && p <= item.start < item.end <= bytes.len()
        } by {
            if i > 0 {
                assert(items[i] == rest[i - 1]);
            }
        }
        assert forall|i: int| 0 <= i < items.len() - 1 implies (#[trigger] items[i]).end
            <= items[i + 1].start by {
            assert(items[i + 1] == rest[i]);
            if i > 0 {
                assert(items[i] == rest[i - 1]);
            } else if rest.len() > 1 {
                assert(end <= rest[0].start);
            }
        }
    }
}

/// The texts of the lexemes, one behind the other, are the source text
/// with its blanks and comments taken out and nothing else changed.
pub proof fn lemma_lexemes_keep_the_text(bytes: Seq<u8>, p: int)
    requires
        0 <= p <= bytes.len(),
    ensures
        joined(bytes, lexemes_from(bytes, p)) == without_filler(bytes, p, false),
    decreases bytes.len() - p,
{
    let start = skip_filler(bytes, p, false);
    lemma_skip_filler_bounds(bytes, p, false);
    lemma_filler_adds_nothing(bytes, p, false);
    let items = lexemes_from(bytes, p);
    if start >= bytes.len() {
        assert(items.drop_first() =~= Seq::<Placed>::empty());
        assert(joined(bytes, items.drop_first()) =~= Seq::<u8>::empty());
        assert(bytes.subrange(bytes.len() as int, bytes.len() as int) =~= Seq::<u8>::empty());
        assert(joined(bytes, items) =~= Seq::<u8>::empty());
    } else {
        let end = token_end(bytes, start);
        lemma_word_end_bounds(bytes, start);
        lemma_lexemes_keep_the_text(bytes, end);
        assert(items.drop_first() =~= lexemes_from(bytes, end));
        if starts_word(bytes[start]) {
            let stop = word_end(bytes, start);
            lemma_word_is_kept(bytes, start, stop);
            if end > stop {
                assert(without_filler(bytes, stop, false) == seq![bytes[stop]] + without_filler(
                    bytes,
                    end,
                    false,
                ));
                assert(bytes.subrange(start, end) =~= bytes.subrange(start, stop) + seq![
                    bytes[stop],
                ]);
                assert(bytes.subrange(start, stop) + (seq![bytes[stop]] + without_filler(
                    bytes,
                    end,
                    false,
                )) =~= (bytes.subrange(start, stop) + seq![bytes[stop]]) + without_filler(
                    bytes,
                    end,
                    false,
                ));
            }
        } else {
            assert(bytes.subrange(start, end) =~= seq![bytes[start]]);
        }
    }
}

fn blank(b: u8) -> (yes: bool)
    ensures
        yes == is_blank(b),
{
    b == 32 || b == 9 || b == 13 || b == 10
}

fn word_byte(b: u8) -> (yes: bool)
    ensures
        yes == is_word_byte(b),
{
    (b >= 48 && b <= 57) || (b >= 65 && b <= 90) || (b >= 97 && b <= 122) || b == 95 || b == 46
        || b == 45 || b >= 128
}

fn digit_of(b: u8) -> (value: u8)
    ensures
        value == digit_value(b),
{
    if b >= 48 && b <= 57 {
        b - 48
    } else if b >= 97 && b <= 102 {
        b - 87
    } else if b >= 65 && b <= 70 {
        b - 55
    } else {
        99
    }
}

fn skip(bytes: &[u8], from: usize) -> (start: usize)
    requires
        from <= bytes@.len(),
    ensures
        start == skip_filler(bytes@, from as int, false),
        from <= start <= bytes@.len(),
{
    let mut p: usize = from;
    let mut in_comment = false;
    while p < bytes.len() && (in_comment || blank(bytes[p]) || bytes[p] == 59)
        invariant
            from <= p <= bytes@.len(),
            skip_filler(bytes@, from as int, false) == skip_filler(bytes@, p as int, in_comment),
        decreases bytes@.len() - p,
    {
        if in_comment {
            in_comment = bytes[p] != 10;
        } else if bytes[p] == 59 {
            in_comment = true;
        }
        p += 1;
    }
    p
}

fn find_end(bytes: &[u8], start: usize) -> (end: usize)
    requires
        start < bytes@.len(),
    ensures
        end == token_end(bytes@, start as int),
        start < end <= bytes@.len(),
        starts_word(bytes@[start as int]) && bytes@[end - 1] != 58u8 ==> end == word_end(
            bytes@,
            start as int,
        ),
{
    let first = bytes[start];
    if !word_byte(first) || (first >= 0x80 && first <= 0xbf) {
        return start + 1;
    }
    let mut stop: usize = start;
    while stop < bytes.len() && word_byte(bytes[stop])
        invariant
            start <= stop <= bytes@.len(),
            word_end(bytes@, start as int) == word_end(bytes@, stop as int),
            stop == start ==> is_word_byte(bytes@[start as int]),
            stop > start ==> is_word_byte(bytes@[stop - 1]),
        decreases bytes@.len() - stop,
    {
        stop += 1;
    }
    if stop < bytes.len() && bytes[stop] == 58 {
        stop + 1
    } else {
        stop
    }
}

fn is_all_digits(bytes: &[u8], lo: usize, hi: usize, base: u8) -> (yes: bool)
    requires
        lo <= hi <= bytes@.len(),
    ensures
        yes == all_digits(bytes@, lo as int, hi as int, base as int),
{
    let mut i: usize = lo;
    while i < hi
        invariant
            lo <= i <= hi <= bytes@.len(),
            all_digits(bytes@, lo as int, i as int, base as int),
        decreases hi - i,
    {
        if digit_of(bytes[i]) >= base {
            return false;
        }
        i += 1;
    }
    true
}

fn parse_digits(bytes: &[u8], lo: usize, hi: usize, base: u8, limit: u64) -> (value: Option<u64>)
    requires
        lo <= hi <= bytes@.len(),
        2 <= base <= 16,
        limit <= 0x7fff_ffff_ffff_ffff,
    ensures
        value.is_some() == digits_at(
            bytes@,
            lo as int,
            hi as int,
            base as int,
            limit as int,
        ).is_some(),
        value.is_some() ==> value.unwrap() == digits_at(
            bytes@,
            lo as int,
            hi as int,
            base as int,
            limit as int,
        ).unwrap(),
{
    if lo >= hi {
        return None;
    }
    let mut acc: u64 = 0;
    let mut over = false;
    let mut i: usize = lo;
    while i < hi
        invariant
            lo <= i <= hi <= bytes@.len(),
            2 <= base <= 16,
            limit <= 0x7fff_ffff_ffff_ffff,
            all_digits(bytes@, lo as int, i as int, base as int),
            acc <= limit,
            !over ==> acc == radix_value(bytes@, lo as int, i as int, base as int),
            over ==> radix_value(bytes@, lo as int, i as int, base as int) > limit,
        decreases hi - i,
    {
        let d = digit_of(bytes[i]);
        if d >= base {
            return None;
        }
        let ghost before = radix_value(bytes@, lo as int, i as int, base as int);
        if !over {
            assert(acc as u128 * base as u128 <= 0x7fff_ffff_ffff_ffff * 16) by (nonlinear_arith)
                requires
                    acc <= 0x7fff_ffff_ffff_ffff,
                    base <= 16,
            ;
            let next: u128 = acc as u128 * base as u128 + d as u128;
            if next > limit as u128 {
                over = true;
            } else {
                acc = next as u64;
            }
        } else {
            assert(before * base + d > limit) by (nonlinear_arith)
                requires
                    before > limit,
                    limit >= 0,
                    base >= 2,
                    d >= 0,
            ;
        }
        i += 1;
    }
    if over {
        None
    } else {
        Some(acc)
    }
}

fn parse_number(bytes: &[u8], lo: usize, hi: usize) -> (value: Option<i64>)
    requires
        lo < hi <= bytes@.len(),
    ensures
        value == number_at(bytes@, lo as int, hi as int),
{
    let body: usize = if bytes[lo] == 45 {
        lo + 1
    } else {
        lo
    };
    let prefixed = hi - body >= 2 && bytes[body] == 48;
    let hex = prefixed && (bytes[body + 1] == 120 || bytes[body + 1] == 88);
    let binary = prefixed && (bytes[body + 1] == 98 || bytes[body + 1] == 66);
    let base: u8 = if hex {
        16
    } else if binary {
        2
    } else {
        10
    };
    let digits: usize = if hex || binary {
        body + 2
    } else {
        body
    };
    match parse_digits(bytes, digits, hi, base, 0x7fff_ffff_ffff_ffff) {
        Some(value) => {
            if body > lo {
                Some(-(value as i64))
            } else {
                Some(value as i64)
            }
        },
        None => None,
    }
}

/// The text `lo..hi` of `source` as a string of its own.
fn text_at(source: &str, lo: usize, hi: usize) -> (text: String)
    requires
        lo <= hi <= source.spec_bytes().len(),
        lo < source.spec_bytes().len() ==> !is_continuation_byte(source.spec_bytes()[lo as int]),
        hi < source.spec_bytes().len() ==> !is_continuation_byte(source.spec_bytes()[hi as int]),
    ensures
        encode_utf8(text@) == source.spec_bytes().subrange(lo as int, hi as int),
{
    broadcast use encode_utf8_valid_utf8;

    proof {
        let bytes = source.spec_bytes();
        assert(valid_utf8(bytes));
        is_char_boundary_start_end_of_seq(bytes);
        if lo < bytes.len() {
            is_char_boundary_iff_not_is_continuation_byte(bytes, lo as int);
        }
        if hi < bytes.len() {
            is_char_boundary_iff_not_is_continuation_byte(bytes, hi as int);
        }
    }
    let span = Span::new(lo, hi);
    let piece = span.snippet(source);
    piece.to_owned()
}

/// Reads the one token that stands at `lo..hi`.
fn lex_token(source: &str, bytes: &[u8], lo: usize, hi: usize) -> (item: Result<
    TokenSpan,
    LexerError,
>)
    requires
        bytes@ == source.spec_bytes(),
        lo < hi <= bytes@.len(),
        hi == token_end(bytes@, lo as int),
    ensures
        placed(item) == (Placed {
            lexeme: classify(bytes@, lo as int, hi as int),
            start: lo as int,
            end: hi as int,
        }),
{
    reveal(classify);
    proof {
        lemma_word_end_bounds(bytes@, lo as int);
    }
    let span = Span::new(lo, hi);
    let first = bytes[lo];
    if !word_byte(first) || (first >= 0x80 && first <= 0xbf) {
        if first == 44 {
            Ok(TokenSpan::new(Token::Comma, span))
        } else {
            Err(LexerError::UnexpectedCharacter(span, first as char))
        }
    } else if bytes[hi - 1] == 58 {
        let name = text_at(source, lo, hi - 1);
        Ok(TokenSpan::new(Token::Label(name), span))
    } else if (first >= 48 && first <= 57) || first == 45 {
        match parse_number(bytes, lo, hi) {
            Some(value) => Ok(TokenSpan::new(Token::Number(value), span)),
            None => Err(LexerError::InvalidNumber(span, text_at(source, lo, hi))),
        }
    } else if (first == 114 || first == 82) && hi - lo > 1 && is_all_digits(bytes, lo + 1, hi, 10) {
        match parse_digits(bytes, lo + 1, hi, 10, 255) {
            Some(value) => Ok(TokenSpan::new(Token::Register(Register(value as u8)), span)),
            None => Err(LexerError::InvalidRegisterNumber(span, text_at(source, lo, hi))),
        }
    } else {
        match find_keyword(bytes, lo, hi) {
            Some(keyword) => Ok(TokenSpan::new(Token::Keyword(keyword), span)),
            None => Ok(TokenSpan::new(Token::Identifier(text_at(source, lo, hi)), span)),
        }
    }
}

/// Reads the whole of `source`. Every piece of text that is neither blank
/// nor comment gives one outcome, a token or an error, with the range it
/// was read from; the last outcome is the end of input, empty, at the end
/// of the text.
pub fn lex(source: &str) -> (items: Vec<Result<TokenSpan, LexerError>>)
    ensures
        all_placed(items@) == lexemes(source.spec_bytes()),
{
    let bytes = source.as_bytes();
    let len = bytes.len();
    let mut items: Vec<Result<TokenSpan, LexerError>> = Vec::new();
    let mut p: usize = 0;
    let mut done = false;
    while !done
        invariant
            p <= len,
            len == bytes@.len(),
            bytes@ == source.spec_bytes(),
            !done ==> lexemes(bytes@) =~= all_placed(items@) + lexemes_from(bytes@, p as int),
            done ==> lexemes(bytes@) =~= all_placed(items@),
        decreases len - p + (if done { 0int } else { 1int }),
    {
        let ghost before = all_placed(items@);
        let start = skip(bytes, p);
        if start >= len {
            let item: Result<TokenSpan, LexerError> = Ok(
                TokenSpan::new(Token::Eof, Span::new(len, len)),
            );
            items.push(item);
            assert(all_placed(items@) =~= before.push(placed(item)));
            done = true;
        } else {
            let end = find_end(bytes, start);
            let item = lex_token(source, bytes, start, end);
            items.push(item);
            assert(all_placed(items@) =~= before.push(placed(item)));
            assert(lexemes_from(bytes@, p as int) =~= seq![placed(item)] + lexemes_from(
                bytes@,
                end as int,
            ));
            p = end;
        }
    }
    items
}

} // verus!
