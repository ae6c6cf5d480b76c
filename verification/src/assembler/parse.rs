//! Parsing one line of assembly.
use crate::assembler::chars::{
    chars_of, number_of, parse_decimal, parse_hexadecimal, part_of, spells, split_words, text_of, texts,
    trim_end_matches, trim_start_matches, without_leading, without_trailing, words,
};
use crate::assembler::{outcome, AsmError, AsmFault};
use crate::machine::{ArithmeticOp, CompareOp, Instruction, Register};
use std::collections::HashMap;
use vstd::prelude::*;
use vstd::string::*;

verus! {

/// The register that `name` names: one of `A B C M SP PC BP FLAGS`.
pub open spec fn register_named(name: Seq<char>) -> Option<Register> {
    if name == "A"@ {
        Some(Register::A)
    } else if name == "B"@ {
        Some(Register::B)
    } else if name == "C"@ {
        Some(Register::C)
    } else if name == "M"@ {
        Some(Register::M)
    } else if name == "PC"@ {
        Some(Register::PC)
    } else if name == "BP"@ {
        Some(Register::BP)
    } else if name == "SP"@ {
        Some(Register::SP)
    } else if name == "FLAGS"@ {
        Some(Register::FLAGS)
    } else {
        None
    }
}

/// The register that an operand names, or the error for none.
pub open spec fn register_operand(name: Seq<char>) -> Result<Register, AsmFault> {
    match register_named(name) {
        Some(reg) => Ok(reg),
        None => Err(AsmFault::InvalidRegister),
    }
}

/// The number that an immediate spells: `#` and a decimal numeral, or `#0x`
/// and a hexadecimal one.
pub open spec fn immediate_of(text: Seq<char>) -> Option<u16> {
    if text.len() > 0 && text[0] == '#' {
        let value = text.drop_first();
        if value.len() >= 2 && value[0] == '0' && value[1] == 'x' {
            number_of(value.subrange(2, value.len() as int), 16)
        } else {
            number_of(value, 10)
        }
    } else {
        None
    }
}

/// The number that an immediate operand spells, or the error for none.
pub open spec fn immediate_operand(text: Seq<char>) -> Result<u16, AsmFault> {
    match immediate_of(text) {
        Some(value) => Ok(value),
        None => Err(AsmFault::InvalidImmediate),
    }
}

/// A second operand that is an immediate if it starts with `#`, and a
/// register if not.
pub open spec fn register_or_immediate(text: Seq<char>) -> Result<
    (Option<Register>, Option<u16>),
    AsmFault,
> {
    if text.len() > 0 && text[0] == '#' {
        match immediate_operand(text) {
            Ok(value) => Ok((None, Some(value))),
            Err(fault) => Err(fault),
        }
    } else {
        match register_operand(text) {
            Ok(reg) => Ok((Some(reg), None)),
            Err(fault) => Err(fault),
        }
    }
}

/// `MOV reg, #imm`.
pub open spec fn parsed_mov(args: Seq<Seq<char>>) -> Result<Instruction, AsmFault> {
    if args.len() != 2 {
        Err(AsmFault::InvalidInstruction)
    } else {
        match register_operand(without_trailing(args[0], ',')) {
            Err(fault) => Err(fault),
            Ok(reg) => match immediate_operand(args[1]) {
                Err(fault) => Err(fault),
                Ok(imm) => Ok(Instruction::Mov(reg, imm)),
            },
        }
    }
}

/// `MSL reg, [#imm #shamt]` and `MSR reg, [#imm #shamt]`; a shift amount
/// of more than a byte is refused.
pub open spec fn parsed_mov_shift(left: bool, args: Seq<Seq<char>>) -> Result<
    Instruction,
    AsmFault,
> {
    if args.len() != 3 {
        Err(AsmFault::InvalidInstruction)
    } else {
        match register_operand(without_trailing(args[0], ',')) {
            Err(fault) => Err(fault),
            Ok(reg) => match immediate_operand(without_leading(args[1], '[')) {
                Err(fault) => Err(fault),
                Ok(value) => match immediate_operand(without_trailing(args[2], ']')) {
                    Err(fault) => Err(fault),
                    Ok(amount) => if amount > u8::MAX {
                        Err(AsmFault::InvalidInstruction)
                    } else {
                        Ok(Instruction::MovShift(reg, amount as u8, left, value))
                    },
                },
            },
        }
    }
}

/// `CPY src, dst`.
pub open spec fn parsed_copy(args: Seq<Seq<char>>) -> Result<Instruction, AsmFault> {
    if args.len() != 2 {
        Err(AsmFault::InvalidInstruction)
    } else {
        match register_operand(without_trailing(args[0], ',')) {
            Err(fault) => Err(fault),
            Ok(from) => match register_operand(args[1]) {
                Err(fault) => Err(fault),
                Ok(to) => Ok(Instruction::Cpy(from, to)),
            },
        }
    }
}

/// `ADD|SUB|MUL|DIV reg, reg|#imm`.
pub open spec fn parsed_arithmetic(op: ArithmeticOp, args: Seq<Seq<char>>) -> Result<
    Instruction,
    AsmFault,
> {
    if args.len() != 2 {
        Err(AsmFault::InvalidInstruction)
    } else {
        match register_operand(without_trailing(args[0], ',')) {
            Err(fault) => Err(fault),
            Ok(reg) => match register_or_immediate(args[1]) {
                Err(fault) => Err(fault),
                Ok((other, imm)) => Ok(Instruction::Arith(reg, other, imm, op)),
            },
        }
    }
}

/// The load or store of a byte or of a word.
pub open spec fn memory_instruction(
    byte: bool,
    store: bool,
    first: Register,
    base: Register,
    shift: u8,
) -> Instruction {
    if byte {
        Instruction::LdbStb(first, base, store, shift)
    } else {
        Instruction::LdrStr(first, base, store, shift)
    }
}

/// `LDR|STR|LDB|STB reg, reg` and `LDR|STR|LDB|STB reg, [reg #shift]`.
/// After a plain register a third word is ignored; a shift of more than a
/// byte is refused.
pub open spec fn parsed_memory(byte: bool, store: bool, args: Seq<Seq<char>>) -> Result<
    Instruction,
    AsmFault,
> {
    if args.len() > 3 || args.len() < 2 {
        Err(AsmFault::InvalidInstruction)
    } else {
        match register_operand(without_trailing(args[0], ',')) {
            Err(fault) => Err(fault),
            Ok(first) => if !(args[1].len() > 0 && args[1][0] == '[') {
                match register_operand(args[1]) {
                    Err(fault) => Err(fault),
                    Ok(base) => Ok(memory_instruction(byte, store, first, base, 0)),
                }
            } else {
                match register_operand(without_leading(args[1], '[')) {
                    Err(fault) => Err(fault),
                    Ok(base) => if args.len() < 3 {
                        Err(AsmFault::InvalidInstruction)
                    } else {
                        match immediate_operand(without_trailing(args[2], ']')) {
                            Err(fault) => Err(fault),
                            Ok(shift) => if shift > u8::MAX {
                                Err(AsmFault::InvalidImmediate)
                            } else {
                                Ok(memory_instruction(byte, store, first, base, shift as u8))
                            },
                        }
                    },
                }
            },
        }
    }
}

/// The jump, conditional or not, to a register or to an address.
pub open spec fn jump_instruction(
    conditional: bool,
    reg: Option<Register>,
    imm: Option<u16>,
) -> Instruction {
    if conditional {
        Instruction::CondJmp(reg, imm)
    } else {
        Instruction::Jmp(reg, imm)
    }
}

/// `JMP reg|#imm|label` and `CJP reg|#imm|label`, where `found` is the
/// address of the label that the operand names, if it names one.
pub open spec fn parsed_jump(conditional: bool, args: Seq<Seq<char>>, found: Option<u16>) -> Result<
    Instruction,
    AsmFault,
> {
    if args.len() != 1 {
        Err(AsmFault::InvalidInstruction)
    } else if args[0].len() > 0 && args[0][0] == '#' {
        match immediate_operand(args[0]) {
            Err(fault) => Err(fault),
            Ok(value) => Ok(jump_instruction(conditional, None, Some(value))),
        }
    } else {
        match register_named(args[0]) {
            Some(reg) => Ok(jump_instruction(conditional, Some(reg), None)),
            None => match found {
                Some(addr) => Ok(jump_instruction(conditional, None, Some(addr))),
                None => Err(AsmFault::UnresolvedLabel(args[0])),
            },
        }
    }
}

/// `CALL #imm|label`, where `found` is the address of the label that the
/// operand names, if it names one.
pub open spec fn parsed_call(args: Seq<Seq<char>>, found: Option<u16>) -> Result<
    Instruction,
    AsmFault,
> {
    if args.len() != 1 {
        Err(AsmFault::InvalidInstruction)
    } else if args[0].len() > 0 && args[0][0] == '#' {
        match immediate_operand(args[0]) {
            Err(fault) => Err(fault),
            Ok(value) => Ok(Instruction::CallRet(false, value)),
        }
    } else {
        match found {
            Some(addr) => Ok(Instruction::CallRet(false, addr)),
            None => Err(AsmFault::UnresolvedLabel(args[0])),
        }
    }
}

/// `EQ|NEQ|LT|LTE|GT|GTE reg, reg|#imm`.
pub open spec fn parsed_comparison(relation: CompareOp, args: Seq<Seq<char>>) -> Result<
    Instruction,
    AsmFault,
> {
    if args.len() != 2 {
        Err(AsmFault::InvalidInstruction)
    } else {
        match register_operand(without_trailing(args[0], ',')) {
            Err(fault) => Err(fault),
            Ok(reg) => match register_or_immediate(args[1]) {
                Err(fault) => Err(fault),
                Ok((other, imm)) => Ok(Instruction::Cmp(reg, other, imm, relation)),
            },
        }
    }
}

/// The instruction that the mnemonic `mnemonic`, in upper case, and the
/// operands `args` stand for, where `found` is the address of the label
/// that a single operand names, if it names one.
pub open spec fn parsed_words(mnemonic: Seq<char>, args: Seq<Seq<char>>, found: Option<u16>) -> Result<
    Instruction,
    AsmFault,
> {
    if mnemonic == "NOOP"@ {
        Ok(Instruction::Noop)
    } else if mnemonic == "MOV"@ {
        parsed_mov(args)
    } else if mnemonic == "MSL"@ {
        parsed_mov_shift(true, args)
    } else if mnemonic == "MSR"@ {
        parsed_mov_shift(false, args)
    } else if mnemonic == "CPY"@ {
        parsed_copy(args)
    } else if mnemonic == "ADD"@ {
        parsed_arithmetic(ArithmeticOp::Add, args)
    } else if mnemonic == "SUB"@ {
        parsed_arithmetic(ArithmeticOp::Sub, args)
    } else if mnemonic == "MUL"@ {
        parsed_arithmetic(ArithmeticOp::Mul, args)
    } else if mnemonic == "DIV"@ {
        parsed_arithmetic(ArithmeticOp::Div, args)
    } else if mnemonic == "LDR"@ {
        parsed_memory(false, false, args)
    } else if mnemonic == "STR"@ {
        parsed_memory(false, true, args)
    } else if mnemonic == "LDB"@ {
        parsed_memory(true, false, args)
    } else if mnemonic == "STB"@ {
        parsed_memory(true, true, args)
    } else if mnemonic == "JMP"@ {
        parsed_jump(false, args, found)
    } else if mnemonic == "CJP"@ {
        parsed_jump(true, args, found)
    } else if mnemonic == "EQ"@ {
        parsed_comparison(CompareOp::Eq, args)
    } else if mnemonic == "NEQ"@ {
        parsed_comparison(CompareOp::NotEq, args)
    } else if mnemonic == "LT"@ {
        parsed_comparison(CompareOp::Less, args)
    } else if mnemonic == "LTE"@ {
        parsed_comparison(CompareOp::LessEq, args)
    } else if mnemonic == "GT"@ {
        parsed_comparison(CompareOp::Greater, args)
    } else if mnemonic == "GTE"@ {
        parsed_comparison(CompareOp::GreaterEq, args)
    } else if mnemonic == "RET"@ {
        Ok(Instruction::CallRet(true, 0))
    } else if mnemonic == "CALL"@ {
        parsed_call(args, found)
    } else {
        Err(AsmFault::InvalidInstruction)
    }
}

/// What `str::to_uppercase` returns for a text.
pub uninterp spec fn uppercase_of(text: Seq<char>) -> Seq<char>;

/// `str::to_uppercase`: the text in upper case, as Unicode defines it.
#[verifier::external_body]
fn uppercase(text: &str) -> (upper: String)
    ensures
        upper@ == uppercase_of(text@),
{
    text.to_uppercase()
}

/// The address that `labels` gives the single operand of `args`, if there
/// is a single operand and it is a label of the table.
pub open spec fn label_of(labels: Map<Seq<char>, u16>, args: Seq<Seq<char>>) -> Option<u16> {
    if args.len() == 1 && labels.contains_key(args[0]) {
        Some(labels[args[0]])
    } else {
        None
    }
}

/// The instruction that `line` stands for: its first word, in upper case,
/// is the mnemonic, and the words after it are the operands.
pub open spec fn parsed_line(line: Seq<char>, labels: Map<Seq<char>, u16>) -> Result<
    Instruction,
    AsmFault,
> {
    let parts = words(line);
    if parts.len() == 0 {
        Err(AsmFault::InvalidFormat)
    } else {
        parsed_words(uppercase_of(parts[0]), parts.drop_first(), label_of(labels, parts.drop_first()))
    }
}

/// `HashMap::get` with a string key: the value that the map holds for the
/// key with the characters of `name`, or `None` if it holds no such key.
#[verifier::external_body]
fn label_address(labels: &HashMap<String, u16>, name: &str) -> (found: Option<u16>)
    ensures
        found == if labels.deep_view().contains_key(name@) {
            Some(labels.deep_view()[name@])
        } else {
            None
        },
{
    match labels.get(name) {
        Some(addr) => Some(*addr),
        None => None,
    }
}

/// The register that `name` names.
pub fn parse_register(name: &Vec<char>) -> (r: Result<Register, AsmError>)
    ensures
        outcome(r) == register_operand(name@),
{
    if spells(name, "A") {
        Ok(Register::A)
    } else if spells(name, "B") {
        Ok(Register::B)
    } else if spells(name, "C") {
        Ok(Register::C)
    } else if spells(name, "M") {
        Ok(Register::M)
    } else if spells(name, "PC") {
        Ok(Register::PC)
    } else if spells(name, "BP") {
        Ok(Register::BP)
    } else if spells(name, "SP") {
        Ok(Register::SP)
    } else if spells(name, "FLAGS") {
        Ok(Register::FLAGS)
    } else {
        Err(AsmError::InvalidRegister)
    }
}

impl Register {
    /// The register that `name` names.
    pub fn from_name(name: &str) -> (r: Result<Register, AsmError>)
        ensures
            outcome(r) == register_operand(name@),
    {
        parse_register(&chars_of(name))
    }
}

impl std::str::FromStr for Register {
    type Err = AsmError;

    /// The register that `s` names, as `Register::from_name` finds it.
    fn from_str(s: &str) -> (r: Result<Self, AsmError>)
        ensures
            outcome(r) == register_operand(s@),
    {
        Register::from_name(s)
    }
}

/// Whether `text` starts with the character `c`.
fn starts_with(text: &Vec<char>, c: char) -> (found: bool)
    ensures
        found == (text@.len() > 0 && text@[0] == c),
{
    text.len() > 0 && text[0] == c
}

/// The number that the immediate `text` spells.
pub fn parse_immediate(text: &Vec<char>) -> (r: Result<u16, AsmError>)
    ensures
        outcome(r) == immediate_operand(text@),
{
    if !starts_with(text, '#') {
        return Err(AsmError::InvalidImmediate);
    }
    let value = part_of(text, 1, text.len());
    assert(value@ =~= text@.drop_first());
    let parsed = if value.len() >= 2 && value[0] == '0' && value[1] == 'x' {
        let digits = part_of(&value, 2, value.len());
        parse_hexadecimal(&digits)
    } else {
        parse_decimal(&value)
    };
    match parsed {
        Some(number) => Ok(number),
        None => Err(AsmError::InvalidImmediate),
    }
}

fn parse_register_or_immediate(text: &Vec<char>) -> (r: Result<
    (Option<Register>, Option<u16>),
    AsmError,
>)
    ensures
        outcome(r) == register_or_immediate(text@),
{
    if starts_with(text, '#') {
        match parse_immediate(text) {
            Ok(value) => Ok((None, Some(value))),
            Err(error) => Err(error),
        }
    } else {
        match parse_register(text) {
            Ok(reg) => Ok((Some(reg), None)),
            Err(error) => Err(error),
        }
    }
}

fn parse_mov(args: &Vec<Vec<char>>) -> (r: Result<Instruction, AsmError>)
    ensures
        outcome(r) == parsed_mov(texts(args@)),
{
    if args.len() != 2 {
        return Err(AsmError::InvalidInstruction);
    }
    let reg = match parse_register(&trim_end_matches(&args[0], ',')) {
        Ok(reg) => reg,
        Err(error) => {
            return Err(error);
        },
    };
    let imm = match parse_immediate(&args[1]) {
        Ok(imm) => imm,
        Err(error) => {
            return Err(error);
        },
    };
    Ok(Instruction::Mov(reg, imm))
}

fn parse_mov_shift(left: bool, args: &Vec<Vec<char>>) -> (r: Result<Instruction, AsmError>)
    ensures
        outcome(r) == parsed_mov_shift(left, texts(args@)),
{
    if args.len() != 3 {
        return Err(AsmError::InvalidInstruction);
    }
    let reg = match parse_register(&trim_end_matches(&args[0], ',')) {
        Ok(reg) => reg,
        Err(error) => {
            return Err(error);
        },
    };
    let value = match parse_immediate(&trim_start_matches(&args[1], '[')) {
        Ok(value) => value,
        Err(error) => {
            return Err(error);
        },
    };
    let amount = match parse_immediate(&trim_end_matches(&args[2], ']')) {
        Ok(amount) => amount,
        Err(error) => {
            return Err(error);
        },
    };
    if amount > 255 {
        return Err(AsmError::InvalidInstruction);
    }
    Ok(Instruction::MovShift(reg, amount as u8, left, value))
}

fn parse_copy(args: &Vec<Vec<char>>) -> (r: Result<Instruction, AsmError>)
    ensures
        outcome(r) == parsed_copy(texts(args@)),
{
    if args.len() != 2 {
        return Err(AsmError::InvalidInstruction);
    }
    let from = match parse_register(&trim_end_matches(&args[0], ',')) {
        Ok(reg) => reg,
        Err(error) => {
            return Err(error);
        },
    };
    let to = match parse_register(&args[1]) {
        Ok(reg) => reg,
        Err(error) => {
            return Err(error);
        },
    };
    Ok(Instruction::Cpy(from, to))
}

fn parse_arithmetic(op: ArithmeticOp, args: &Vec<Vec<char>>) -> (r: Result<Instruction, AsmError>)
    ensures
        outcome(r) == parsed_arithmetic(op, texts(args@)),
{
    if args.len() != 2 {
        return Err(AsmError::InvalidInstruction);
    }
    let reg = match parse_register(&trim_end_matches(&args[0], ',')) {
        Ok(reg) => reg,
        Err(error) => {
            return Err(error);
        },
    };
    match parse_register_or_immediate(&args[1]) {
        Ok((other, imm)) => Ok(Instruction::Arith(reg, other, imm, op)),
        Err(error) => Err(error),
    }
}

fn parse_ldr_str(byte: bool, store: bool, args: &Vec<Vec<char>>) -> (r: Result<
    Instruction,
    AsmError,
>)
    ensures
        outcome(r) == parsed_memory(byte, store, texts(args@)),
{
    if args.len() > 3 || args.len() < 2 {
        return Err(AsmError::InvalidInstruction);
    }
    let first = match parse_register(&trim_end_matches(&args[0], ',')) {
        Ok(reg) => reg,
        Err(error) => {
            return Err(error);
        },
    };
    if !starts_with(&args[1], '[') {
        let base = match parse_register(&args[1]) {
            Ok(reg) => reg,
            Err(error) => {
                return Err(error);
            },
        };
        if byte {
            return Ok(Instruction::LdbStb(first, base, store, 0));
        } else {
            return Ok(Instruction::LdrStr(first, base, store, 0));
        }
    }
    let base = match parse_register(&trim_start_matches(&args[1], '[')) {
        Ok(reg) => reg,
        Err(error) => {
            return Err(error);
        },
    };
    if args.len() < 3 {
        return Err(AsmError::InvalidInstruction);
    }
    let shift = match parse_immediate(&trim_end_matches(&args[2], ']')) {
        Ok(shift) => shift,
        Err(error) => {
            return Err(error);
        },
    };
    if shift > 255 {
        return Err(AsmError::InvalidImmediate);
    }
    if byte {
        Ok(Instruction::LdbStb(first, base, store, shift as u8))
    } else {
        Ok(Instruction::LdrStr(first, base, store, shift as u8))
    }
}

fn parse_jmp(conditional: bool, args: &Vec<Vec<char>>, found: Option<u16>) -> (r: Result<
    Instruction,
    AsmError,
>)
    ensures
        outcome(r) == parsed_jump(conditional, texts(args@), found),
{
    if args.len() != 1 {
        return Err(AsmError::InvalidInstruction);
    }
    let (reg, imm) = if starts_with(&args[0], '#') {
        match parse_immediate(&args[0]) {
            Ok(value) => (None, Some(value)),
            Err(error) => {
                return Err(error);
            },
        }
    } else {
        match parse_register(&args[0]) {
            Ok(reg) => (Some(reg), None),
            Err(_) => match found {
                Some(addr) => (None, Some(addr)),
                None => {
                    return Err(AsmError::UnresolvedLabel(text_of(&args[0])));
                },
            },
        }
    };
    if conditional {
        return Ok(Instruction::CondJmp(reg, imm));
    }
    Ok(Instruction::Jmp(reg, imm))
}

fn parse_call(args: &Vec<Vec<char>>, found: Option<u16>) -> (r: Result<Instruction, AsmError>)
    ensures
        outcome(r) == parsed_call(texts(args@), found),
{
    if args.len() != 1 {
        return Err(AsmError::InvalidInstruction);
    }
    let addr = if starts_with(&args[0], '#') {
        match parse_immediate(&args[0]) {
            Ok(value) => value,
            Err(error) => {
                return Err(error);
            },
        }
    } else {
        match found {
            Some(addr) => addr,
            None => {
                return Err(AsmError::UnresolvedLabel(text_of(&args[0])));
            },
        }
    };
    Ok(Instruction::CallRet(false, addr))
}

fn parse_comparision(relation: CompareOp, args: &Vec<Vec<char>>) -> (r: Result<
    Instruction,
    AsmError,
>)
    ensures
        outcome(r) == parsed_comparison(relation, texts(args@)),
{
    if args.len() != 2 {
        return Err(AsmError::InvalidInstruction);
    }
    let reg = match parse_register(&trim_end_matches(&args[0], ',')) {
        Ok(reg) => reg,
        Err(error) => {
            return Err(error);
        },
    };
    match parse_register_or_immediate(&args[1]) {
        Ok((other, imm)) => Ok(Instruction::Cmp(reg, other, imm, relation)),
        Err(error) => Err(error),
    }
}

fn parse_ret(args: &Vec<Vec<char>>) -> (r: Result<Instruction, AsmError>)
    ensures
        outcome(r) == Ok::<Instruction, AsmFault>(Instruction::CallRet(true, 0)),
{
    Ok(Instruction::CallRet(true, 0))
}

/// Parses an instruction from its mnemonic, which is in upper case, and its
/// operands. `found` is the address of the label that a single operand
/// names, if it names one.
pub fn parse_words(mnemonic: &str, args: &Vec<Vec<char>>, found: Option<u16>) -> (r: Result<
    Instruction,
    AsmError,
>)
    ensures
        outcome(r) == parsed_words(mnemonic@, texts(args@), found),
{
    let name = chars_of(mnemonic);
    if spells(&name, "NOOP") {
        Ok(Instruction::Noop)
    } else if spells(&name, "MOV") {
        parse_mov(args)
    } else if spells(&name, "MSL") {
        parse_mov_shift(true, args)
    } else if spells(&name, "MSR") {
        parse_mov_shift(false, args)
    } else if spells(&name, "CPY") {
        parse_copy(args)
    } else if spells(&name, "ADD") {
        parse_arithmetic(ArithmeticOp::Add, args)
    } else if spells(&name, "SUB") {
        parse_arithmetic(ArithmeticOp::Sub, args)
    } else if spells(&name, "MUL") {
        parse_arithmetic(ArithmeticOp::Mul, args)
    } else if spells(&name, "DIV") {
        parse_arithmetic(ArithmeticOp::Div, args)
    } else if spells(&name, "LDR") {
        parse_ldr_str(false, false, args)
    } else if spells(&name, "STR") {
        parse_ldr_str(false, true, args)
    } else if spells(&name, "LDB") {
        parse_ldr_str(true, false, args)
    } else if spells(&name, "STB") {
        parse_ldr_str(true, true, args)
    } else if spells(&name, "JMP") {
        parse_jmp(false, args, found)
    } else if spells(&name, "CJP") {
        parse_jmp(true, args, found)
    } else if spells(&name, "EQ") {
        parse_comparision(CompareOp::Eq, args)
    } else if spells(&name, "NEQ") {
        parse_comparision(CompareOp::NotEq, args)
    } else if spells(&name, "LT") {
        parse_comparision(CompareOp::Less, args)
    } else if spells(&name, "LTE") {
        parse_comparision(CompareOp::LessEq, args)
    } else if spells(&name, "GT") {
        parse_comparision(CompareOp::Greater, args)
    } else if spells(&name, "GTE") {
        parse_comparision(CompareOp::GreaterEq, args)
    } else if spells(&name, "RET") {
        parse_ret(args)
    } else if spells(&name, "CALL") {
        parse_call(args, found)
    } else {
        Err(AsmError::InvalidInstruction)
    }
}

/// Splits off the first word of `parts`.
fn operands_of(parts: &Vec<Vec<char>>) -> (args: Vec<Vec<char>>)
    requires
        parts@.len() > 0,
    ensures
        texts(args@) == texts(parts@).drop_first(),
{
    let mut args: Vec<Vec<char>> = Vec::new();
    let mut i: usize = 1;
    while i < parts.len()
        invariant
            1 <= i <= parts@.len(),
            texts(args@) == texts(parts@).subrange(1, i as int),
        decreases parts@.len() - i,
    {
        let word = part_of(&parts[i], 0, parts[i].len());
        assert(word@ =~= parts@[i as int]@);
        let ghost before = texts(args@);
        args.push(word);
        assert(texts(args@) =~= before.push(word@));
        i += 1;
        assert(texts(args@) =~= texts(parts@).subrange(1, i as int));
    }
    assert(texts(parts@).subrange(1, parts@.len() as int) =~= texts(parts@).drop_first());
    args
}

/// Parses the words of a line, where `found` is the address of the label
/// that a single operand names, if it names one.
pub fn parse_parts(parts: &Vec<Vec<char>>, found: Option<u16>) -> (r: Result<
    Instruction,
    AsmError,
>)
    ensures
        outcome(r) == if parts@.len() == 0 {
            Err(AsmFault::InvalidFormat)
        } else {
            parsed_words(
                uppercase_of(texts(parts@)[0]),
                texts(parts@).drop_first(),
                found,
            )
        },
{
    if parts.len() == 0 {
        return Err(AsmError::InvalidFormat);
    }
    let first = text_of(&parts[0]);
    let mnemonic = uppercase(first.as_str());
    let args = operands_of(parts);
    parse_words(mnemonic.as_str(), &args, found)
}

/// Parses one line of assembly. A label that a jump or a call names is
/// looked up in `labels`.
pub fn parse_assembly_line(line: &str, labels: &HashMap<String, u16>) -> (r: Result<
    Instruction,
    AsmError,
>)
    ensures
        outcome(r) == parsed_line(line@, labels.deep_view()),
{
    let text = chars_of(line);
    let parts = split_words(&text);
    let found = if parts.len() == 2 {
        let name = text_of(&parts[1]);
        label_address(labels, name.as_str())
    } else {
        None
    };
    proof {
        if parts@.len() > 0 {
            assert(texts(parts@).drop_first().len() == parts@.len() - 1);
            if parts@.len() == 2 {
                assert(texts(parts@).drop_first()[0] == parts@[1]@);
            }
        }
    }
    parse_parts(&parts, found)
}

} // verus!
