//! The reserved words: operation mnemonics, condition codes and the
//! directive that names a constant. They are matched in any letter case.

use vstd::prelude::*;
use vstd::string::*;

use crate::backends::spec_lower;
use crate::token::{Condition, Keyword, Operation};

verus! {

/// Whether the bytes `lo..hi` spell `word`, a word in small letters, in any
/// mix of capital and small letters.
pub open spec fn spells_at(bytes: Seq<u8>, lo: int, hi: int, word: Seq<u8>) -> bool {
    hi - lo == word.len() && forall|i: int|
        0 <= i < word.len() ==> spec_lower(#[trigger] bytes[lo + i]) == word[i]
}

/// The reserved word that the bytes `lo..hi` spell, if any.
pub open spec fn keyword_at(bytes: Seq<u8>, lo: int, hi: int) -> Option<Keyword> {
    if spells_at(bytes, lo, hi, "nop".spec_bytes()) {
        Some(Keyword::Operation(Operation::Nop))
    }     else if spells_at(bytes, lo, hi, "hlt".spec_bytes()) {
        Some(Keyword::Operation(Operation::Hlt))
    }     else if spells_at(bytes, lo, hi, "add".spec_bytes()) {
        Some(Keyword::Operation(Operation::Add))
    }     else if spells_at(bytes, lo, hi, "sub".spec_bytes()) {
        Some(Keyword::Operation(Operation::Sub))
    }     else if spells_at(bytes, lo, hi, "nor".spec_bytes()) {
        Some(Keyword::Operation(Operation::Nor))
    }     else if spells_at(bytes, lo, hi, "and".spec_bytes()) {
        Some(Keyword::Operation(Operation::And))
    }     else if spells_at(bytes, lo, hi, "xor".spec_bytes()) {
        Some(Keyword::Operation(Operation::Xor))
    }     else if spells_at(bytes, lo, hi, "rsh".spec_bytes()) {
        Some(Keyword::Operation(Operation::Rsh))
    }     else if spells_at(bytes, lo, hi, "ldi".spec_bytes()) {
        Some(Keyword::Operation(Operation::Ldi))
    }     else if spells_at(bytes, lo, hi, "adi".spec_bytes()) {
        Some(Keyword::Operation(Operation::Adi))
    }     else if spells_at(bytes, lo, hi, "jmp".spec_bytes()) {
        Some(Keyword::Operation(Operation::Jmp))
    }     else if spells_at(bytes, lo, hi, "brh".spec_bytes()) {
        Some(Keyword::Operation(Operation::Brh))
    }     else if spells_at(bytes, lo, hi, "cal".spec_bytes()) {
        Some(Keyword::Operation(Operation::Cal))
    }     else if spells_at(bytes, lo, hi, "ret".spec_bytes()) {
        Some(Keyword::Operation(Operation::Ret))
    }     else if spells_at(bytes, lo, hi, "lod".spec_bytes()) {
        Some(Keyword::Operation(Operation::Lod))
    }     else if spells_at(bytes, lo, hi, "str".spec_bytes()) {
        Some(Keyword::Operation(Operation::Str))
    }     else if spells_at(bytes, lo, hi, "cmp".spec_bytes()) {
        Some(Keyword::Operation(Operation::Cmp))
    }     else if spells_at(bytes, lo, hi, "mov".spec_bytes()) {
        Some(Keyword::Operation(Operation::Mov))
    }     else if spells_at(bytes, lo, hi, "lsh".spec_bytes()) {
        Some(Keyword::Operation(Operation::Lsh))
    }     else if spells_at(bytes, lo, hi, "inc".spec_bytes()) {
        Some(Keyword::Operation(Operation::Inc))
    }     else if spells_at(bytes, lo, hi, "dec".spec_bytes()) {
        Some(Keyword::Operation(Operation::Dec))
    }     else if spells_at(bytes, lo, hi, "not".spec_bytes()) {
        Some(Keyword::Operation(Operation::Not))
    }     else if spells_at(bytes, lo, hi, "neg".spec_bytes()) {
        Some(Keyword::Operation(Operation::Neg))
    }     else if spells_at(bytes, lo, hi, "or".spec_bytes()) {
        Some(Keyword::Operation(Operation::Or))
    }     else if spells_at(bytes, lo, hi, "cpy".spec_bytes()) {
        Some(Keyword::Operation(Operation::Cpy))
    }     else if spells_at(bytes, lo, hi, "adc".spec_bytes()) {
        Some(Keyword::Operation(Operation::Adc))
    }     else if spells_at(bytes, lo, hi, "mld".spec_bytes()) {
        Some(Keyword::Operation(Operation::Mld))
    }     else if spells_at(bytes, lo, hi, "mst".spec_bytes()) {
        Some(Keyword::Operation(Operation::Mst))
    }     else if spells_at(bytes, lo, hi, "pld".spec_bytes()) {
        Some(Keyword::Operation(Operation::Pld))
    }     else if spells_at(bytes, lo, hi, "pst".spec_bytes()) {
        Some(Keyword::Operation(Operation::Pst))
    }     else if spells_at(bytes, lo, hi, "inv".spec_bytes()) {
        Some(Keyword::Operation(Operation::Inv))
    }     else if spells_at(bytes, lo, hi, "cpi".spec_bytes()) {
        Some(Keyword::Operation(Operation::Cpi))
    }     else if spells_at(bytes, lo, hi, "ani".spec_bytes()) {
        Some(Keyword::Operation(Operation::Ani))
    }     else if spells_at(bytes, lo, hi, "bkl".spec_bytes()) {
        Some(Keyword::Operation(Operation::Bkl))
    }     else if spells_at(bytes, lo, hi, "bkr".spec_bytes()) {
        Some(Keyword::Operation(Operation::Bkr))
    }     else if spells_at(bytes, lo, hi, "skp".spec_bytes()) {
        Some(Keyword::Operation(Operation::Skp))
    }     else if spells_at(bytes, lo, hi, "clr".spec_bytes()) {
        Some(Keyword::Operation(Operation::Clr))
    }     else if spells_at(bytes, lo, hi, "eq".spec_bytes()) {
        Some(Keyword::Condition(Condition::Equal))
    }     else if spells_at(bytes, lo, hi, "ne".spec_bytes()) {
        Some(Keyword::Condition(Condition::NotEqual))
    }     else if spells_at(bytes, lo, hi, "ge".spec_bytes()) {
        Some(Keyword::Condition(Condition::GreaterEqual))
    }     else if spells_at(bytes, lo, hi, "lt".spec_bytes()) {
        Some(Keyword::Condition(Condition::Less))
    }     else if spells_at(bytes, lo, hi, "nt".spec_bytes()) {
        Some(Keyword::Condition(Condition::Not))
    }     else if spells_at(bytes, lo, hi, "nz".spec_bytes()) {
        Some(Keyword::Condition(Condition::NotZero))
    }     else if spells_at(bytes, lo, hi, "mi".spec_bytes()) {
        Some(Keyword::Condition(Condition::Negative))
    }     else if spells_at(bytes, lo, hi, "pl".spec_bytes()) {
        Some(Keyword::Condition(Condition::NotNegative))
    }     else if spells_at(bytes, lo, hi, "define".spec_bytes()) {
        Some(Keyword::Define)
    } else {
        None
    }
}

fn lower_byte(byte: u8) -> (folded: u8)
    ensures
        folded == spec_lower(byte),
{
    if byte >= 65 && byte <= 90 {
        byte + 32
    } else {
        byte
    }
}

/// Tells whether the bytes `lo..hi` spell `word` in any letter case.
pub fn spells_word(bytes: &[u8], lo: usize, hi: usize, word: &str) -> (yes: bool)
    requires
        lo <= hi <= bytes@.len(),
    ensures
        yes == spells_at(bytes@, lo as int, hi as int, word.spec_bytes()),
{
    let letters = word.as_bytes();
    if hi - lo != letters.len() {
        return false;
    }
    let mut i: usize = 0;
    while i < letters.len()
        invariant
            lo <= hi <= bytes@.len(),
            hi - lo == letters@.len(),
            i <= letters@.len(),
            letters@ == word.spec_bytes(),
            forall|j: int| 0 <= j < i ==> spec_lower(#[trigger] bytes@[lo + j]) == letters@[j],
        decreases letters@.len() - i,
    {
        if lower_byte(bytes[lo + i]) != letters[i] {
            return false;
        }
        i += 1;
    }
    true
}

/// Looks the bytes `lo..hi` up among the reserved words.
pub fn find_keyword(bytes: &[u8], lo: usize, hi: usize) -> (found: Option<Keyword>)
    requires
        lo <= hi <= bytes@.len(),
    ensures
        found == keyword_at(bytes@, lo as int, hi as int),
{
    if spells_word(bytes, lo, hi, "nop") {
        Some(Keyword::Operation(Operation::Nop))
    }     else if spells_word(bytes, lo, hi, "hlt") {
        Some(Keyword::Operation(Operation::Hlt))
    }     else if spells_word(bytes, lo, hi, "add") {
        Some(Keyword::Operation(Operation::Add))
    }     else if spells_word(bytes, lo, hi, "sub") {
        Some(Keyword::Operation(Operation::Sub))
    }     else if spells_word(bytes, lo, hi, "nor") {
        Some(Keyword::Operation(Operation::Nor))
    }     else if spells_word(bytes, lo, hi, "and") {
        Some(Keyword::Operation(Operation::And))
    }     else if spells_word(bytes, lo, hi, "xor") {
        Some(Keyword::Operation(Operation::Xor))
    }     else if spells_word(bytes, lo, hi, "rsh") {
        Some(Keyword::Operation(Operation::Rsh))
    }     else if spells_word(bytes, lo, hi, "ldi") {
        Some(Keyword::Operation(Operation::Ldi))
    }     else if spells_word(bytes, lo, hi, "adi") {
        Some(Keyword::Operation(Operation::Adi))
    }     else if spells_word(bytes, lo, hi, "jmp") {
        Some(Keyword::Operation(Operation::Jmp))
    }     else if spells_word(bytes, lo, hi, "brh") {
        Some(Keyword::Operation(Operation::Brh))
    }     else if spells_word(bytes, lo, hi, "cal") {
        Some(Keyword::Operation(Operation::Cal))
    }     else if spells_word(bytes, lo, hi, "ret") {
        Some(Keyword::Operation(Operation::Ret))
    }     else if spells_word(bytes, lo, hi, "lod") {
        Some(Keyword::Operation(Operation::Lod))
    }     else if spells_word(bytes, lo, hi, "str") {
        Some(Keyword::Operation(Operation::Str))
    }     else if spells_word(bytes, lo, hi, "cmp") {
        Some(Keyword::Operation(Operation::Cmp))
    }     else if spells_word(bytes, lo, hi, "mov") {
        Some(Keyword::Operation(Operation::Mov))
    }     else if spells_word(bytes, lo, hi, "lsh") {
        Some(Keyword::Operation(Operation::Lsh))
    }     else if spells_word(bytes, lo, hi, "inc") {
        Some(Keyword::Operation(Operation::Inc))
    }     else if spells_word(bytes, lo, hi, "dec") {
        Some(Keyword::Operation(Operation::Dec))
    }     else if spells_word(bytes, lo, hi, "not") {
        Some(Keyword::Operation(Operation::Not))
    }     else if spells_word(bytes, lo, hi, "neg") {
        Some(Keyword::Operation(Operation::Neg))
    }     else if spells_word(bytes, lo, hi, "or") {
        Some(Keyword::Operation(Operation::Or))
    }     else if spells_word(bytes, lo, hi, "cpy") {
        Some(Keyword::Operation(Operation::Cpy))
    }     else if spells_word(bytes, lo, hi, "adc") {
        Some(Keyword::Operation(Operation::Adc))
    }     else if spells_word(bytes, lo, hi, "mld") {
        Some(Keyword::Operation(Operation::Mld))
    }     else if spells_word(bytes, lo, hi, "mst") {
        Some(Keyword::Operation(Operation::Mst))
    }     else if spells_word(bytes, lo, hi, "pld") {
        Some(Keyword::Operation(Operation::Pld))
    }     else if spells_word(bytes, lo, hi, "pst") {
        Some(Keyword::Operation(Operation::Pst))
    }     else if spells_word(bytes, lo, hi, "inv") {
        Some(Keyword::Operation(Operation::Inv))
    }     else if spells_word(bytes, lo, hi, "cpi") {
        Some(Keyword::Operation(Operation::Cpi))
    }     else if spells_word(bytes, lo, hi, "ani") {
        Some(Keyword::Operation(Operation::Ani))
    }     else if spells_word(bytes, lo, hi, "bkl") {
        Some(Keyword::Operation(Operation::Bkl))
    }     else if spells_word(bytes, lo, hi, "bkr") {
        Some(Keyword::Operation(Operation::Bkr))
    }     else if spells_word(bytes, lo, hi, "skp") {
        Some(Keyword::Operation(Operation::Skp))
    }     else if spells_word(bytes, lo, hi, "clr") {
        Some(Keyword::Operation(Operation::Clr))
    }     else if spells_word(bytes, lo, hi, "eq") {
        Some(Keyword::Condition(Condition::Equal))
    }     else if spells_word(bytes, lo, hi, "ne") {
        Some(Keyword::Condition(Condition::NotEqual))
    }     else if spells_word(bytes, lo, hi, "ge") {
        Some(Keyword::Condition(Condition::GreaterEqual))
    }     else if spells_word(bytes, lo, hi, "lt") {
        Some(Keyword::Condition(Condition::Less))
    }     else if spells_word(bytes, lo, hi, "nt") {
        Some(Keyword::Condition(Condition::Not))
    }     else if spells_word(bytes, lo, hi, "nz") {
        Some(Keyword::Condition(Condition::NotZero))
    }     else if spells_word(bytes, lo, hi, "mi") {
        Some(Keyword::Condition(Condition::Negative))
    }     else if spells_word(bytes, lo, hi, "pl") {
        Some(Keyword::Condition(Condition::NotNegative))
    }     else if spells_word(bytes, lo, hi, "define") {
        Some(Keyword::Define)
    } else {
        None
    }
}

} // verus!
