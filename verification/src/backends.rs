//! Target architectures and their range-checked register values.

use arbitrary_int::UInt;
use vstd::prelude::*;
use vstd::string::*;

use crate::text::{decimal, decimal_string};

verus! {

#[verifier::external_type_specification]
#[verifier::external_body]
#[verifier::reject_recursive_types(T)]
pub struct ExUInt<T, const BITS: usize>(UInt<T, BITS>);

/// The number held by a 4-bit register field.
pub uninterp spec fn nibble_value(field: UInt<u8, 4>) -> u8;

/// The number held by a 2-bit register field.
pub uninterp spec fn pair_value(field: UInt<u8, 2>) -> u8;

/// `arbitrary_int::UInt::<u8, 4>::new`, which panics above 15 and otherwise
/// stores the number it is given.
#[verifier::external_body]
fn nibble_new(val: u8) -> (field: UInt<u8, 4>)
    requires
        val <= 15,
    ensures
        nibble_value(field) == val,
{
    UInt::<u8, 4>::new(val)
}

/// `arbitrary_int::UInt::<u8, 2>::new`, which panics above 3 and otherwise
/// stores the number it is given.
#[verifier::external_body]
fn pair_new(val: u8) -> (field: UInt<u8, 2>)
    requires
        val <= 3,
    ensures
        pair_value(field) == val,
{
    UInt::<u8, 2>::new(val)
}

/// `arbitrary_int::UInt::<u8, 4>::value`: the stored number, which every
/// safe constructor keeps at 15 or below.
#[verifier::external_body]
fn nibble_get(field: UInt<u8, 4>) -> (val: u8)
    ensures
        val == nibble_value(field),
        val <= 15,
{
    field.value()
}

/// `arbitrary_int::UInt::<u8, 2>::value`: the stored number, which every
/// safe constructor keeps at 3 or below.
#[verifier::external_body]
fn pair_get(field: UInt<u8, 2>) -> (val: u8)
    ensures
        val == pair_value(field),
        val <= 3,
{
    field.value()
}

/// An ASCII capital letter as its small letter; any other byte as it is.
pub open spec fn spec_lower(byte: u8) -> u8 {
    if 65 <= byte <= 90 {
        (byte + 32) as u8
    } else {
        byte
    }
}

/// Whether `bytes` spell `word`, a word in small letters, in any mix of
/// capital and small letters.
pub open spec fn spells(bytes: Seq<u8>, word: Seq<u8>) -> bool {
    bytes.len() == word.len() && forall|i: int|
        0 <= i < bytes.len() ==> spec_lower(#[trigger] bytes[i]) == word[i]
}

/// The bytes of `tasm`.
pub open spec fn tau_extension() -> Seq<u8> {
    seq![116u8, 97u8, 115u8, 109u8]
}

/// The bytes of `smc`.
pub open spec fn batpu2_extension() -> Seq<u8> {
    seq![115u8, 109u8, 99u8]
}

/// The backend a file-name extension selects, if any.
pub open spec fn backend_of_extension(bytes: Seq<u8>) -> Option<Backend> {
    if spells(bytes, tau_extension()) {
        Some(Backend::TauAnalyzersNone)
    } else if spells(bytes, batpu2_extension()) {
        Some(Backend::BatPU2)
    } else {
        None
    }
}

fn lower(byte: u8) -> (folded: u8)
    ensures
        folded == spec_lower(byte),
{
    if byte >= 65 && byte <= 90 {
        byte + 32
    } else {
        byte
    }
}

/// The closed set of supported target architectures.
#[derive(Debug, Clone, Copy, PartialEq, Eq, Structural)]
pub enum Backend {
    BatPU2,
    TauAnalyzersNone,
}

impl Backend {
    /// The identifier under which the backend is selected.
    pub open spec fn name(self) -> Seq<char> {
        match self {
            Backend::BatPU2 => "batpu2-mattbatwings-none"@,
            Backend::TauAnalyzersNone => "tau-analyzers-none"@,
        }
    }

    /// Width of a register field in bits.
    pub open spec fn spec_register_bits(self) -> nat {
        match self {
            Backend::BatPU2 => 4,
            Backend::TauAnalyzersNone => 2,
        }
    }

    /// Number of registers an instruction can name.
    pub open spec fn spec_register_count(self) -> nat {
        match self {
            Backend::BatPU2 => 16,
            Backend::TauAnalyzersNone => 4,
        }
    }

    pub fn to_str(&self) -> (text: &'static str)
        ensures
            text@ == self.name(),
    {
        match self {
            Backend::BatPU2 => "batpu2-mattbatwings-none",
            Backend::TauAnalyzersNone => "tau-analyzers-none",
        }
    }

    /// Every backend, in declaration order.
    pub fn value_variants() -> (all: Vec<Backend>)
        ensures
            all@ == seq![Backend::BatPU2, Backend::TauAnalyzersNone],
    {
        vec![Backend::BatPU2, Backend::TauAnalyzersNone]
    }

    /// The backend for a source file with the extension `extension`, given
    /// without its dot: `tasm` and `smc` are known, in any letter case.
    pub fn from_extension(extension: &str) -> (backend: Option<Backend>)
        ensures
            backend == backend_of_extension(extension.spec_bytes()),
    {
        let bytes = extension.as_bytes();
        if bytes.len() == 4 && lower(bytes[0]) == 116 && lower(bytes[1]) == 97 && lower(bytes[2])
            == 115 && lower(bytes[3]) == 109 {
            Some(Backend::TauAnalyzersNone)
        } else if bytes.len() == 3 && lower(bytes[0]) == 115 && lower(bytes[1]) == 109 && lower(
            bytes[2],
        ) == 99 {
            Some(Backend::BatPU2)
        } else {
            None
        }
    }

    pub fn register_bits(&self) -> (bits: u8)
        ensures
            bits == self.spec_register_bits(),
    {
        match self {
            Backend::BatPU2 => 4,
            Backend::TauAnalyzersNone => 2,
        }
    }

    pub fn register_count(&self) -> (count: u8)
        ensures
            count == self.spec_register_count(),
    {
        match self {
            Backend::BatPU2 => 16,
            Backend::TauAnalyzersNone => 4,
        }
    }

    /// The failure this backend reports for a register index it lacks.
    pub open spec fn range_error(self, val: u8) -> RegisterError {
        match self {
            Backend::BatPU2 => RegisterError::InvalidBatPU2(val),
            Backend::TauAnalyzersNone => RegisterError::InvalidTauAnalyzers(val),
        }
    }

    /// Builds the register value `val` for this backend: accepted exactly
    /// below the backend's register count, never truncated.
    pub fn register(&self, val: u8) -> (made: Result<Register, RegisterError>)
        ensures
            val < self.spec_register_count() ==> made.is_ok() && made.unwrap().backend() == *self
                && made.unwrap().index() == val,
            val >= self.spec_register_count() ==> made == Err::<Register, RegisterError>(
                self.range_error(val),
            ),
    {
        match self {
            Backend::BatPU2 => Register::batpu2(val),
            Backend::TauAnalyzersNone => Register::tau(val),
        }
    }
}

/// Why a register value could not be built.
#[derive(Debug, Clone, Copy, PartialEq, Eq, Structural)]
pub enum RegisterError {
    InvalidBatPU2(u8),
    InvalidTauAnalyzers(u8),
}

impl RegisterError {
    /// The register index that was refused.
    pub open spec fn refused(self) -> u8 {
        match self {
            RegisterError::InvalidBatPU2(val) => val,
            RegisterError::InvalidTauAnalyzers(val) => val,
        }
    }

    /// The error in words: the backend, the refused register and the valid
    /// range.
    pub open spec fn spec_message(self) -> Seq<char> {
        match self {
            RegisterError::InvalidBatPU2(val) => "Invalid BatPU2 register: r"@ + decimal(
                val as nat,
            ) + " (valid: r0-r15)"@,
            RegisterError::InvalidTauAnalyzers(val) => "Invalid TauAnalyzers register: r"@
                + decimal(val as nat) + " (valid: r0-r3)"@,
        }
    }

    pub fn message(&self) -> (text: String)
        ensures
            text@ == self.spec_message(),
    {
        match self {
            RegisterError::InvalidBatPU2(val) => {
                let mut text = String::from_str("Invalid BatPU2 register: r");
                text.append(decimal_string(*val as usize).as_str());
                text.append(" (valid: r0-r15)");
                text
            },
            RegisterError::InvalidTauAnalyzers(val) => {
                let mut text = String::from_str("Invalid TauAnalyzers register: r");
                text.append(decimal_string(*val as usize).as_str());
                text.append(" (valid: r0-r3)");
                text
            },
        }
    }
}

/// A register value tagged with the backend whose field it fits.
#[derive(Debug, PartialEq, Clone, Copy)]
pub enum Register {
    /// 16 registers (r0-r15), 4-bit encoding.
    BatPU2(UInt<u8, 4>),
    /// 4 banked registers (r0-r3), 2-bit encoding.
    TauAnalyzers(UInt<u8, 2>),
}

impl Register {
    /// The register's index.
    pub open spec fn index(self) -> u8 {
        match self {
            Register::BatPU2(field) => nibble_value(field),
            Register::TauAnalyzers(field) => pair_value(field),
        }
    }

    /// The backend the register belongs to.
    pub open spec fn backend(self) -> Backend {
        match self {
            Register::BatPU2(_) => Backend::BatPU2,
            Register::TauAnalyzers(_) => Backend::TauAnalyzersNone,
        }
    }

    pub fn batpu2(val: u8) -> (made: Result<Register, RegisterError>)
        ensures
            val <= 15 ==> made.is_ok() && made.unwrap().backend() == Backend::BatPU2
                && made.unwrap().index() == val,
            val > 15 ==> made == Err::<Register, RegisterError>(RegisterError::InvalidBatPU2(val)),
    {
        if val > 15 {
            Err(RegisterError::InvalidBatPU2(val))
        } else {
            Ok(Register::BatPU2(nibble_new(val)))
        }
    }

    pub fn tau(val: u8) -> (made: Result<Register, RegisterError>)
        ensures
            val <= 3 ==> made.is_ok() && made.unwrap().backend() == Backend::TauAnalyzersNone
                && made.unwrap().index() == val,
            val > 3 ==> made == Err::<Register, RegisterError>(
                RegisterError::InvalidTauAnalyzers(val),
            ),
    {
        if val > 3 {
            Err(RegisterError::InvalidTauAnalyzers(val))
        } else {
            Ok(Register::TauAnalyzers(pair_new(val)))
        }
    }

    /// Raw value for encoding.
    pub fn value(&self) -> (val: u8)
        ensures
            val == self.index(),
            val < self.backend().spec_register_count(),
    {
        match self {
            Register::BatPU2(field) => nibble_get(*field),
            Register::TauAnalyzers(field) => pair_get(*field),
        }
    }
}

} // verus!
