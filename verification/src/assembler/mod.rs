//! The assembler: the textual form of the instructions and their encoding.
use vstd::prelude::*;

pub mod chars;
pub mod encode;
pub mod output;
pub mod parse;
pub mod render;
pub mod resolve;

pub use encode::{encode_instruction, encode_instructions};
pub use output::{
    assemble, program_image, program_text, rv16asm, words_of_image, Contents, Extension,
};
pub use parse::{parse_assembly_line, parse_words};
pub use resolve::{
    parse_and_locate, parse_assembly, resolve_and_locate, resolve_and_parse_assembly, LineError,
};

verus! {

/// Why a line of assembly was refused.
#[derive(Debug)]
pub enum AsmError {
    /// An operand that must be a register names none.
    InvalidRegister,
    /// The operands do not fit the instruction.
    InvalidOperands,
    /// The mnemonic is unknown, or the number of operands is wrong.
    InvalidInstruction,
    /// The line holds no word.
    InvalidFormat,
    /// An immediate is no number, or too large.
    InvalidImmediate,
    /// A jump or call names a label that is not defined.
    UnresolvedLabel(String),
}

/// An assembler error with the text of its label in place of the string.
pub enum AsmFault {
    InvalidRegister,
    InvalidOperands,
    InvalidInstruction,
    InvalidFormat,
    InvalidImmediate,
    UnresolvedLabel(Seq<char>),
}

impl View for AsmError {
    type V = AsmFault;

    open spec fn view(&self) -> AsmFault {
        match self {
            AsmError::InvalidRegister => AsmFault::InvalidRegister,
            AsmError::InvalidOperands => AsmFault::InvalidOperands,
            AsmError::InvalidInstruction => AsmFault::InvalidInstruction,
            AsmError::InvalidFormat => AsmFault::InvalidFormat,
            AsmError::InvalidImmediate => AsmFault::InvalidImmediate,
            AsmError::UnresolvedLabel(label) => AsmFault::UnresolvedLabel(label@),
        }
    }
}

/// The result of the assembler with the view of its error.
pub open spec fn outcome<T>(r: Result<T, AsmError>) -> Result<T, AsmFault> {
    match r {
        Ok(value) => Ok(value),
        Err(error) => Err(error@),
    }
}

} // verus!
