//! What the assembler hands out: program images and resolved text.
use crate::assembler::encode::{all_well_formed, encode_instructions, encoded};
use crate::assembler::parse::{
    parsed_arithmetic, parsed_call, parsed_comparison, parsed_copy, parsed_jump, parsed_memory,
    parsed_mov, parsed_mov_shift, parsed_words, register_or_immediate,
};
use crate::assembler::render::instruction_text;
use crate::assembler::resolve::{
    assembled, assembled_upto, forget_line, parse_assembly, parsed_upto,
    resolve_and_parse_assembly, source_lines,
};
use crate::assembler::{AsmError, AsmFault};
use crate::machine::Instruction;
use crate::memory::{high_byte, low_byte, program_bytes, word_of};
use vstd::prelude::*;
use vstd::string::*;

verus! {

/// The image of a program: its words, each low byte first.
pub fn program_image(words: &[u16]) -> (bytes: Vec<u8>)
    ensures
        bytes@ == program_bytes(words@),
{
    let mut bytes: Vec<u8> = Vec::new();
    let mut i: usize = 0;
    while i < words.len()
        invariant
            i <= words@.len(),
            bytes@ == program_bytes(words@.subrange(0, i as int)),
        decreases words@.len() - i,
    {
        let word = words[i];
        let ghost before = bytes@;
        bytes.push(#[verifier::truncate] ((word & 0x00ff) as u8));
        bytes.push(#[verifier::truncate] (((word & 0xff00) >> 8) as u8));
        i += 1;
        proof {
            let longer = words@.subrange(0, i as int);
            let shorter = words@.subrange(0, i - 1);
            assert(before == program_bytes(shorter));
            assert(bytes@.len() == 2 * i);
            assert forall|j: int| 0 <= j < 2 * i implies bytes@[j] == program_bytes(longer)[j] by {
                if j < 2 * (i - 1) {
                    assert(bytes@[j] == before[j]);
                    assert(longer[j / 2] == shorter[j / 2]);
                } else {
                    assert(longer[j / 2] == word);
                }
            }
            assert(bytes@ =~= program_bytes(longer));
        }
    }
    assert(words@.subrange(0, i as int) =~= words@);
    bytes
}

/// The words that the bytes of an image stand for, two bytes each.
pub open spec fn image_words(bytes: Seq<u8>) -> Seq<u16> {
    Seq::new(bytes.len() / 2, |i: int| word_of(bytes[2 * i], bytes[2 * i + 1]))
}

/// The words of the image `bytes`; `None` for an odd number of bytes.
pub fn words_of_image(bytes: &[u8]) -> (words: Option<Vec<u16>>)
    ensures
        bytes@.len() % 2 == 1 ==> words is None,
        bytes@.len() % 2 == 0 ==> words is Some && words->0@ == image_words(bytes@),
{
    if bytes.len() % 2 == 1 {
        return None;
    }
    let mut words: Vec<u16> = Vec::new();
    let mut i: usize = 0;
    while i < bytes.len() / 2
        invariant
            i <= bytes@.len() / 2,
            words@.len() == i,
            forall|j: int| 0 <= j < i ==> words@[j] == #[trigger] image_words(bytes@)[j],
        decreases bytes@.len() / 2 - i,
    {
        let lo = bytes[2 * i];
        let hi = bytes[2 * i + 1];
        words.push((lo as u16) | ((hi as u16) << 8));
        i += 1;
    }
    assert(words@ =~= image_words(bytes@));
    Some(words)
}

/// The words of the image of a program are the program.
pub proof fn lemma_image_round_trip(words: Seq<u16>)
    ensures
        image_words(program_bytes(words)) == words,
{
    let bytes = program_bytes(words);
    assert forall|i: int| 0 <= i < words.len() implies image_words(bytes)[i] == words[i] by {
        assert(bytes[2 * i] == low_byte(words[(2 * i) / 2]));
        assert(bytes[2 * i + 1] == high_byte(words[(2 * i + 1) / 2]));
        crate::memory::lemma_word_of_bytes(words[i]);
    }
    assert(image_words(bytes) =~= words);
}

/// The lines of assembly of the instructions from position `from` on, each
/// ended by a line feed.
pub open spec fn text_from(instructions: Seq<Instruction>, from: int) -> Seq<char>
    decreases instructions.len() - from,
{
    if from < 0 || from >= instructions.len() {
        Seq::empty()
    } else {
        instruction_text(instructions[from]) + seq!['\n'] + text_from(instructions, from + 1)
    }
}

/// The resolved text of a program: one line of assembly for each
/// instruction.
pub fn program_text(instructions: &[Instruction]) -> (text: String)
    ensures
        text@ == text_from(instructions@, 0),
{
    proof {
        reveal_strlit("\n");
    }
    let mut text = String::new();
    let mut i: usize = 0;
    assert(text@ + text_from(instructions@, 0) =~= text_from(instructions@, 0));
    while i < instructions.len()
        invariant
            i <= instructions@.len(),
            "\n"@ == seq!['\n'],
            text@ + text_from(instructions@, i as int) == text_from(instructions@, 0),
        decreases instructions@.len() - i,
    {
        let ghost before = text@;
        let line = instructions[i].to_string();
        text.append(line.as_str());
        text.append("\n");
        assert(text@ + text_from(instructions@, i + 1) =~= before + (instruction_text(
            instructions@[i as int],
        ) + seq!['\n'] + text_from(instructions@, i + 1)));
        i += 1;
    }
    assert(text@ + Seq::<char>::empty() =~= text@);
    text
}

/// Whatever the parser accepts has a second operand that is a register or
/// an immediate and not both, so it can be encoded.
pub proof fn lemma_parsed_well_formed(
    mnemonic: Seq<char>,
    args: Seq<Seq<char>>,
    found: Option<u16>,
)
    ensures
        parsed_words(mnemonic, args, found) matches Ok(inst) ==> inst.well_formed(),
{
    lemma_operands_well_formed(args, found);
}

/// Each kind of instruction that the parser accepts has a second operand
/// that is a register or an immediate and not both.
proof fn lemma_operands_well_formed(args: Seq<Seq<char>>, found: Option<u16>)
    ensures
        forall|op: crate::machine::ArithmeticOp| #[trigger]
            parsed_arithmetic(op, args) matches Ok(inst) ==> inst.well_formed(),
        forall|relation: crate::machine::CompareOp| #[trigger]
            parsed_comparison(relation, args) matches Ok(inst) ==> inst.well_formed(),
        forall|conditional: bool| #[trigger]
            parsed_jump(conditional, args, found) matches Ok(inst) ==> inst.well_formed(),
        forall|left: bool| #[trigger]
            parsed_mov_shift(left, args) matches Ok(inst) ==> inst.well_formed(),
        forall|byte: bool, store: bool| #[trigger]
            parsed_memory(byte, store, args) matches Ok(inst) ==> inst.well_formed(),
        parsed_mov(args) matches Ok(inst) ==> inst.well_formed(),
        parsed_copy(args) matches Ok(inst) ==> inst.well_formed(),
        parsed_call(args, found) matches Ok(inst) ==> inst.well_formed(),
{
    if args.len() == 2 {
        assert(register_or_immediate(args[1]) matches Ok((reg, imm)) ==> (reg is Some
            <==> imm is None));
    }
}

/// Every instruction of an assembled program can be encoded.
pub proof fn lemma_assembled_well_formed(lines: Seq<Seq<char>>, k: int)
    ensures
        assembled_upto(lines, k) matches Ok(assembly) ==> all_well_formed(assembly.instructions),
        parsed_upto(lines, k) matches Ok(instructions) ==> all_well_formed(instructions),
    decreases k,
{
    if 0 < k <= lines.len() {
        lemma_assembled_well_formed(lines, k - 1);
        let parts = crate::assembler::chars::words(lines[k - 1]);
        if parts.len() > 0 {
            let mnemonic = crate::assembler::parse::uppercase_of(parts[0]);
            lemma_parsed_well_formed(mnemonic, parts.drop_first(), None);
            lemma_parsed_well_formed(
                mnemonic,
                parts.drop_first(),
                if parts.len() == 2 {
                    crate::assembler::resolve::label_at(lines, k - 1, parts[1])
                } else {
                    None
                },
            );
        }
    }
}

/// The words of a program, or why it was refused.
pub open spec fn words_of(r: Result<Seq<Instruction>, AsmFault>) -> Result<Seq<u16>, AsmFault> {
    match r {
        Ok(instructions) => Ok(instructions.map_values(|inst: Instruction| encoded(inst))),
        Err(fault) => Err(fault),
    }
}

/// The result of assembling to words, with the views of the words and of
/// the error.
pub open spec fn assembled_words(r: Result<Vec<u16>, AsmError>) -> Result<Seq<u16>, AsmFault> {
    match r {
        Ok(words) => Ok(words@),
        Err(error) => Err(error@),
    }
}

/// Assembles a program that uses no labels to its words.
pub fn rv16asm(code: &str) -> (r: Result<Vec<u16>, AsmError>)
    ensures
        assembled_words(r) == words_of(
            forget_line(parsed_upto(source_lines(code@), source_lines(code@).len() as int)),
        ),
{
    match parse_assembly(code) {
        Ok(instructions) => {
            proof {
                lemma_assembled_well_formed(
                    source_lines(code@),
                    source_lines(code@).len() as int,
                );
            }
            Ok(encode_instructions(instructions.as_slice()))
        },
        Err(error) => Err(error),
    }
}

/// Assembles a program with labels to its words.
pub fn assemble(code: &str) -> (r: Result<Vec<u16>, AsmError>)
    ensures
        assembled_words(r) == words_of(forget_line(assembled(code@))),
{
    match resolve_and_parse_assembly(code) {
        Ok(instructions) => {
            proof {
                lemma_assembled_well_formed(
                    source_lines(code@),
                    source_lines(code@).len() as int,
                );
            }
            Ok(encode_instructions(instructions.as_slice()))
        },
        Err(error) => Err(error),
    }
}

/// The kind of a file of the assembler, by its extension, with its path.
#[derive(Debug, PartialEq, Eq)]
pub enum Extension {
    /// A program image, `.bin`.
    BinaryExt(String),
    /// Assembly that may name labels, `.s`.
    UnresolvedTextExt(String),
    /// Assembly with every label resolved, `.S`.
    ResolvedTextExt(String),
}

/// What is to be written to a file.
#[derive(Debug, PartialEq, Eq)]
pub enum Contents {
    /// The bytes of a program image.
    Bytes(Vec<u8>),
    /// Resolved assembly.
    Text(String),
}

/// `Path::extension` with `OsStr::to_str`: the extension of the file name
/// of the path, if the host finds one and it is Unicode. Which part of a
/// path is its file name depends on the host, so nothing is claimed of the
/// result.
#[verifier::external_body]
fn path_extension(path: &str) -> (extension: Option<String>) {
    match std::path::Path::new(path).extension() {
        Some(extension) => match extension.to_str() {
            Some(text) => Some(String::from(text)),
            None => None,
        },
        None => None,
    }
}

/// The text of the error for a path without an extension.
pub open spec fn no_extension_text() -> Seq<char> {
    "could not get file extension"@
}

/// The text of the error for an extension that the assembler does not know.
pub open spec fn unsupported_text(extension: Seq<char>) -> Seq<char> {
    "unsupported extension: "@ + extension
}

/// The text of the error for a kind of file that the assembler cannot write.
pub open spec fn not_supported_text() -> Seq<char> {
    "not supported"@
}

/// `r` is what the path `path` is classified as when its extension is
/// `extension`: a file of the kind that the extension stands for, or the
/// error for a missing or an unknown extension.
pub open spec fn classified(
    path: Seq<char>,
    extension: Option<Seq<char>>,
    r: Result<Extension, String>,
) -> bool {
    match extension {
        None => r is Err && r->Err_0@ == no_extension_text(),
        Some(text) => if Extension::known(text) {
            r is Ok && r->Ok_0.path() == path && r->Ok_0.has_extension(text)
        } else {
            r is Err && r->Err_0@ == unsupported_text(text)
        },
    }
}

impl Extension {
    /// The path of the file.
    pub open spec fn path(self) -> Seq<char> {
        match self {
            Extension::BinaryExt(path) => path@,
            Extension::UnresolvedTextExt(path) => path@,
            Extension::ResolvedTextExt(path) => path@,
        }
    }

    /// The extension is that of this kind of file.
    pub open spec fn has_extension(self, extension: Seq<char>) -> bool {
        match self {
            Extension::BinaryExt(_) => extension == "bin"@,
            Extension::UnresolvedTextExt(_) => extension == "s"@,
            Extension::ResolvedTextExt(_) => extension == "S"@,
        }
    }

    /// The extension `extension` is known to the assembler.
    pub open spec fn known(extension: Seq<char>) -> bool {
        extension == "bin"@ || extension == "S"@ || extension == "s"@
    }

    /// The kind of the file at `path`, which has the extension `extension`.
    pub fn classify(path: String, extension: Option<&str>) -> (r: Result<Extension, String>)
        ensures
            classified(
                path@,
                match extension {
                    Some(text) => Some(text@),
                    None => None,
                },
                r,
            ),
    {
        let text = match extension {
            Some(text) => text,
            None => {
                return Err(String::from_str("could not get file extension"));
            },
        };
        let name = crate::assembler::chars::chars_of(text);
        if crate::assembler::chars::spells(&name, "bin") {
            Ok(Extension::BinaryExt(path))
        } else if crate::assembler::chars::spells(&name, "S") {
            Ok(Extension::ResolvedTextExt(path))
        } else if crate::assembler::chars::spells(&name, "s") {
            Ok(Extension::UnresolvedTextExt(path))
        } else {
            let mut message = String::from_str("unsupported extension: ");
            message.append(text);
            Err(message)
        }
    }

    /// The kind of the file at `path`, by the extension that the host finds
    /// in the path.
    pub fn of_path(path: String) -> (r: Result<Extension, String>)
        ensures
            exists|extension: Option<Seq<char>>| #[trigger] classified(path@, extension, r),
    {
        let extension = path_extension(path.as_str());
        match extension {
            Some(text) => Extension::classify(path, Some(text.as_str())),
            None => Extension::classify(path, None),
        }
    }

    /// What is to be written to a file of this kind for the program
    /// `instructions`: the image of its words, or its resolved text.
    /// Assembly with labels cannot be written.
    pub fn contents(&self, instructions: &Vec<Instruction>) -> (r: Result<Contents, String>)
        requires
            all_well_formed(instructions@),
        ensures
            match *self {
                Extension::BinaryExt(_) => r matches Ok(Contents::Bytes(bytes)) && bytes@
                    == program_bytes(instructions@.map_values(|inst: Instruction| encoded(inst))),
                Extension::ResolvedTextExt(_) => r matches Ok(Contents::Text(text)) && text@
                    == text_from(instructions@, 0),
                Extension::UnresolvedTextExt(_) => r is Err && r->Err_0@ == not_supported_text(),
            },
    {
        match self {
            Extension::BinaryExt(_) => {
                let words = encode_instructions(instructions.as_slice());
                Ok(Contents::Bytes(program_image(words.as_slice())))
            },
            Extension::ResolvedTextExt(_) => Ok(
                Contents::Text(program_text(instructions.as_slice())),
            ),
            Extension::UnresolvedTextExt(_) => Err(String::from_str("not supported")),
        }
    }
}

impl TryFrom<String> for Extension {
    type Error = String;

    /// The kind of the file at `value`, as `Extension::of_path` finds it.
    fn try_from(value: String) -> (r: Result<Self, String>)
        ensures
            exists|extension: Option<Seq<char>>| #[trigger] classified(value@, extension, r),
    {
        Extension::of_path(value)
    }
}

impl vstd::std_specs::convert::TryFromSpecImpl<String> for Extension {
    /// The result holds texts that every call builds anew, so the
    /// conversion is described by the clauses of `try_from` and not by a
    /// value.
    open spec fn obeys_try_from_spec() -> bool {
        false
    }

    open spec fn try_from_spec(value: String) -> Result<Self, String> {
        arbitrary()
    }
}

} // verus!
