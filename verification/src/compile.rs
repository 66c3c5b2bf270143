//! The whole pipeline: text to tokens, tokens to a program, the program to
//! words or to the complete list of its errors.

use vstd::prelude::*;
use vstd::string::*;

use crate::assembler::{assembled, Assembled, Assembler};
use crate::backends::Backend;
use crate::lexer::{all_placed, lex, lexemes};
use crate::parser::{countable, parse, parsed, Lexed, ParsedProgram};

verus! {

/// Whether `done` is what compiling the text `bytes` for `backend` gives:
/// the assembly of a program that is the reading of tokens that are the
/// lexemes of the text.
pub open spec fn compiles_to(bytes: Seq<u8>, backend: Backend, done: Assembled) -> bool {
    exists|items: Seq<Lexed>, program: ParsedProgram|
        #![trigger all_placed(items), assembled(program, backend)]
        all_placed(items) == lexemes(bytes) && countable(items) && program.wf() && program.view()
            == parsed(items) && done.outcome() == assembled(program, backend) && done.defines
            == program.defines && done.labels == program.labels
}

/// Tells whether a token stream is short enough for its positions to be
/// counted.
pub fn is_countable(items: &Vec<Lexed>) -> (yes: bool)
    ensures
        yes == countable(items@),
{
    items.len() <= usize::MAX - 8 && (items.len() as u64) <= 0x7fff_ffff_ffff_ffff
}

/// Compiles `source` for `backend`. The result holds every word of the
/// program, or every error of the source, lexical, syntactic and of
/// assembly. Nothing is returned for a text with more tokens than can be
/// counted.
pub fn compile(source: &str, backend: Backend) -> (done: Option<Assembled>)
    ensures
        done.is_some() ==> compiles_to(source.spec_bytes(), backend, done.unwrap()),
        done.is_none() ==> exists|items: Seq<Lexed>|
            all_placed(items) == lexemes(source.spec_bytes()) && !#[trigger] countable(items),
{
    let items = lex(source);
    if !is_countable(&items) {
        return None;
    }
    let program = parse(&items);
    let assembler = Assembler::new(backend, program);
    let done = assembler.assemble();
    assert(done.outcome() == assembled(program, backend));
    Some(done)
}

} // verus!
