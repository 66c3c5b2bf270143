//! Bit layouts of the 16-bit instruction words, and the fields read back
//! from them.

use vstd::prelude::*;

verus! {

/// Opcode in bits 12..16, then three 4-bit fields.
pub open spec fn spec_three_fields(opcode: u16, a: u8, b: u8, c: u8) -> u16 {
    (opcode << 12) | ((a as u16) << 8) | ((b as u16) << 4) | (c as u16)
}

/// Opcode in bits 12..16, a 4-bit field, then an 8-bit immediate.
pub open spec fn spec_field_and_byte(opcode: u16, a: u8, immediate: u8) -> u16 {
    (opcode << 12) | ((a as u16) << 8) | (immediate as u16)
}

/// Opcode in bits 12..16, a 2-bit condition in bits 10..12, then a 10-bit
/// address.
pub open spec fn spec_condition_and_address(opcode: u16, condition: u8, address: u16) -> u16 {
    (opcode << 12) | ((condition as u16) << 10) | address
}

/// Two register indices, one per byte.
pub open spec fn spec_2reg(register: u8, register1: u8) -> u16 {
    (register as u16) << 8 | register1 as u16
}

pub open spec fn spec_opcode_of(word: u16) -> u16 {
    word >> 12
}

pub open spec fn spec_field_a(word: u16) -> u8 {
    ((word >> 8) & 0xf) as u8
}

pub open spec fn spec_field_b(word: u16) -> u8 {
    ((word >> 4) & 0xf) as u8
}

pub open spec fn spec_field_c(word: u16) -> u8 {
    (word & 0xf) as u8
}

pub open spec fn spec_low_byte(word: u16) -> u8 {
    (word & 0xff) as u8
}

pub open spec fn spec_high_byte(word: u16) -> u8 {
    (word >> 8) as u8
}

pub open spec fn spec_condition_of(word: u16) -> u8 {
    ((word >> 10) & 0x3) as u8
}

pub open spec fn spec_address_of(word: u16) -> u16 {
    word & 0x3ff
}

/// Reading the fields of a three-field word gives back what was packed.
pub proof fn lemma_three_fields_read_back(opcode: u16, a: u8, b: u8, c: u8)
    requires
        opcode < 16,
        a < 16,
        b < 16,
        c < 16,
    ensures
        spec_opcode_of(spec_three_fields(opcode, a, b, c)) == opcode,
        spec_field_a(spec_three_fields(opcode, a, b, c)) == a,
        spec_field_b(spec_three_fields(opcode, a, b, c)) == b,
        spec_field_c(spec_three_fields(opcode, a, b, c)) == c,
{
    assert(opcode < 16 && a < 16 && b < 16 && c < 16 ==> {
        let w = (opcode << 12) | ((a as u16) << 8) | ((b as u16) << 4) | (c as u16);
        &&& w >> 12 == opcode
        &&& ((w >> 8) & 0xf) as u8 == a
        &&& ((w >> 4) & 0xf) as u8 == b
        &&& (w & 0xf) as u8 == c
    }) by (bit_vector);
}

/// Reading the fields of a field-and-byte word gives back what was packed.
pub proof fn lemma_field_and_byte_read_back(opcode: u16, a: u8, immediate: u8)
    requires
        opcode < 16,
        a < 16,
    ensures
        spec_opcode_of(spec_field_and_byte(opcode, a, immediate)) == opcode,
        spec_field_a(spec_field_and_byte(opcode, a, immediate)) == a,
        spec_low_byte(spec_field_and_byte(opcode, a, immediate)) == immediate,
{
    assert(opcode < 16 && a < 16 ==> {
        let w = (opcode << 12) | ((a as u16) << 8) | (immediate as u16);
        &&& w >> 12 == opcode
        &&& ((w >> 8) & 0xf) as u8 == a
        &&& (w & 0xff) as u8 == immediate
    }) by (bit_vector);
}

/// Reading the fields of a condition-and-address word gives back what was
/// packed.
pub proof fn lemma_condition_and_address_read_back(opcode: u16, condition: u8, address: u16)
    requires
        opcode < 16,
        condition < 4,
        address < 1024,
    ensures
        spec_opcode_of(spec_condition_and_address(opcode, condition, address)) == opcode,
        spec_condition_of(spec_condition_and_address(opcode, condition, address)) == condition,
        spec_address_of(spec_condition_and_address(opcode, condition, address)) == address,
{
    assert(opcode < 16 && condition < 4 && address < 1024 ==> {
        let w = (opcode << 12) | ((condition as u16) << 10) | address;
        &&& w >> 12 == opcode
        &&& ((w >> 10) & 0x3) as u8 == condition
        &&& w & 0x3ff == address
    }) by (bit_vector);
}

/// Reading the bytes of a two-register word gives back the two indices.
pub proof fn lemma_2reg_read_back(register: u8, register1: u8)
    ensures
        spec_high_byte(spec_2reg(register, register1)) == register,
        spec_low_byte(spec_2reg(register, register1)) == register1,
{
    assert({
        let w = (register as u16) << 8 | register1 as u16;
        &&& (w >> 8) as u8 == register
        &&& (w & 0xff) as u8 == register1
    }) by (bit_vector);
}

/// Packs an opcode and three 4-bit fields; each can be read back.
pub fn three_fields(opcode: u16, a: u8, b: u8, c: u8) -> (word: u16)
    requires
        opcode < 16,
        a < 16,
        b < 16,
        c < 16,
    ensures
        word == spec_three_fields(opcode, a, b, c),
        spec_opcode_of(word) == opcode,
        spec_field_a(word) == a,
        spec_field_b(word) == b,
        spec_field_c(word) == c,
{
    proof {
        lemma_three_fields_read_back(opcode, a, b, c);
    }
    (opcode << 12) | ((a as u16) << 8) | ((b as u16) << 4) | (c as u16)
}

/// Packs an opcode, a 4-bit field and a byte; each can be read back.
pub fn field_and_byte(opcode: u16, a: u8, immediate: u8) -> (word: u16)
    requires
        opcode < 16,
        a < 16,
    ensures
        word == spec_field_and_byte(opcode, a, immediate),
        spec_opcode_of(word) == opcode,
        spec_field_a(word) == a,
        spec_low_byte(word) == immediate,
{
    proof {
        lemma_field_and_byte_read_back(opcode, a, immediate);
    }
    (opcode << 12) | ((a as u16) << 8) | (immediate as u16)
}

/// Packs an opcode, a 2-bit condition and a 10-bit address; each can be
/// read back.
pub fn condition_and_address(opcode: u16, condition: u8, address: u16) -> (word: u16)
    requires
        opcode < 16,
        condition < 4,
        address < 1024,
    ensures
        word == spec_condition_and_address(opcode, condition, address),
        spec_opcode_of(word) == opcode,
        spec_condition_of(word) == condition,
        spec_address_of(word) == address,
{
    proof {
        lemma_condition_and_address_read_back(opcode, condition, address);
    }
    (opcode << 12) | ((condition as u16) << 10) | address
}

/// Packs two register indices, the first in the high byte; each can be read
/// back.
pub fn assemble_2reg(register: u8, register1: u8) -> (word: u16)
    ensures
        word == spec_2reg(register, register1),
        spec_high_byte(word) == register,
        spec_low_byte(word) == register1,
{
    proof {
        lemma_2reg_read_back(register, register1);
    }
    (register as u16) << 8 | register1 as u16
}

pub fn opcode_of(word: u16) -> (opcode: u16)
    ensures
        opcode == spec_opcode_of(word),
{
    word >> 12
}

pub fn field_a(word: u16) -> (field: u8)
    ensures
        field == spec_field_a(word),
{
    ((word >> 8) & 0xf) as u8
}

pub fn field_b(word: u16) -> (field: u8)
    ensures
        field == spec_field_b(word),
{
    ((word >> 4) & 0xf) as u8
}

pub fn field_c(word: u16) -> (field: u8)
    ensures
        field == spec_field_c(word),
{
    (word & 0xf) as u8
}

pub fn low_byte(word: u16) -> (byte: u8)
    ensures
        byte == spec_low_byte(word),
{
    (word & 0xff) as u8
}

pub fn high_byte(word: u16) -> (byte: u8)
    ensures
        byte == spec_high_byte(word),
{
    (word >> 8) as u8
}

pub fn condition_of(word: u16) -> (condition: u8)
    ensures
        condition == spec_condition_of(word),
{
    ((word >> 10) & 0x3) as u8
}

pub fn address_of(word: u16) -> (address: u16)
    ensures
        address == spec_address_of(word),
{
    word & 0x3ff
}

} // verus!
