//! The CPU core: registers, the instruction model with its decoder, and the
//! single-step interpreter.
use crate::memory::{
    copies, low_byte, reads_word, writes_word, writes_word_through, Addressable, LinearMemory,
    MemoryModel, LAST_ADDRESS,
};
use crate::text::{
    binary_word, decimal, hex_word, hexadecimal, push_binary_word, push_decimal, push_hex_word,
    push_hexadecimal,
};
use vstd::prelude::*;
use vstd::std_specs::convert::TryFromSpecImpl;
use vstd::string::*;

verus! {

/// The eight registers. `PC` holds the address of the next instruction, `M`
/// the return address of a call, and `FLAGS` the bits named by the constants
/// of this module.
#[derive(Debug, PartialEq, Eq, Structural, PartialOrd, Ord, Clone, Copy, Hash)]
pub enum Register {
    A,
    B,
    C,
    M,
    SP,
    PC,
    BP,
    FLAGS,
}

/// Bit 0 of `FLAGS`: the machine is halted.
pub const FLAG_HALT: u16 = 0b0001;

/// Bit 1 of `FLAGS`: a division stores its remainder at `[SP]`.
pub const FLAG_DIVMOD: u16 = 0b0010;

/// Bit 2 of `FLAGS`: a memory write was rejected.
pub const FLAG_MEMFAULT: u16 = 0b0100;

/// Bit 3 of `FLAGS`: the last comparison held.
pub const FLAG_CMPTRUE: u16 = 0b1000;

/// What a rejected write or a division by zero adds to `FLAGS`:
/// the halt and memory fault bits.
pub const FAULT_FLAGS: u16 = 0b0101;

impl Register {
    /// The number of the register, as it stands in an instruction word.
    pub open spec fn code(self) -> u16 {
        match self {
            Register::A => 0,
            Register::B => 1,
            Register::C => 2,
            Register::M => 3,
            Register::SP => 4,
            Register::PC => 5,
            Register::BP => 6,
            Register::FLAGS => 7,
        }
    }

    /// The register with the number `code`, for numbers below eight.
    pub open spec fn with_code(code: u16) -> Register {
        if code == 0 {
            Register::A
        } else if code == 1 {
            Register::B
        } else if code == 2 {
            Register::C
        } else if code == 3 {
            Register::M
        } else if code == 4 {
            Register::SP
        } else if code == 5 {
            Register::PC
        } else if code == 6 {
            Register::BP
        } else {
            Register::FLAGS
        }
    }

    /// The name of the register as the assembler writes it.
    pub open spec fn name(self) -> Seq<char> {
        match self {
            Register::A => "A"@,
            Register::B => "B"@,
            Register::C => "C"@,
            Register::M => "M"@,
            Register::SP => "SP"@,
            Register::PC => "PC"@,
            Register::BP => "BP"@,
            Register::FLAGS => "FLAGS"@,
        }
    }

    /// The position of the register in the register file.
    pub fn index(self) -> (i: usize)
        ensures
            i == self.code(),
            i < 8,
    {
        match self {
            Register::A => 0,
            Register::B => 1,
            Register::C => 2,
            Register::M => 3,
            Register::SP => 4,
            Register::PC => 5,
            Register::BP => 6,
            Register::FLAGS => 7,
        }
    }

    /// The register that an instruction word names by `code`.
    fn from_code(code: u16) -> (reg: Register)
        requires
            code < 8,
        ensures
            reg == Register::with_code(code),
            reg.code() == code,
    {
        match code {
            0 => Register::A,
            1 => Register::B,
            2 => Register::C,
            3 => Register::M,
            4 => Register::SP,
            5 => Register::PC,
            6 => Register::BP,
            _ => Register::FLAGS,
        }
    }

    /// The name of the register.
    pub fn to_string(&self) -> (text: String)
        ensures
            text@ == self.name(),
    {
        match self {
            Register::A => String::from_str("A"),
            Register::B => String::from_str("B"),
            Register::C => String::from_str("C"),
            Register::M => String::from_str("M"),
            Register::SP => String::from_str("SP"),
            Register::PC => String::from_str("PC"),
            Register::BP => String::from_str("BP"),
            Register::FLAGS => String::from_str("FLAGS"),
        }
    }
}

/// The text of the error for a number that names no register.
pub open spec fn invalid_register_text(value: usize) -> Seq<char> {
    "invalid register: "@ + decimal(value as nat)
}

impl TryFrom<usize> for Register {
    type Error = String;

    /// The register with the number `value`; numbers from eight on name none.
    fn try_from(value: usize) -> (r: Result<Self, String>)
        ensures
            value < 8 ==> r == Ok::<Register, String>(Register::with_code(value as u16)),
            value >= 8 ==> r is Err && r->Err_0@ == invalid_register_text(value),
    {
        if value < 8 {
            Ok(Register::from_code(value as u16))
        } else {
            let mut text = String::from_str("invalid register: ");
            push_decimal(&mut text, value as u64);
            Err(text)
        }
    }
}

impl TryFromSpecImpl<usize> for Register {
    /// The error is a text built anew by every call, so the conversion is
    /// described by the clauses of `try_from` and not by a value.
    open spec fn obeys_try_from_spec() -> bool {
        false
    }

    open spec fn try_from_spec(value: usize) -> Result<Self, String> {
        arbitrary()
    }
}

/// The four arithmetic operations.
#[derive(Debug, Clone, Copy, PartialEq, Eq, Structural, PartialOrd, Ord, Hash)]
pub enum ArithmeticOp {
    Add,
    Sub,
    Mul,
    Div,
}

impl ArithmeticOp {
    /// The number of the operation, as it stands in an instruction word.
    pub open spec fn code(self) -> u16 {
        match self {
            ArithmeticOp::Add => 0,
            ArithmeticOp::Sub => 1,
            ArithmeticOp::Mul => 2,
            ArithmeticOp::Div => 3,
        }
    }

    /// The operation with the number `code`, for numbers below four.
    pub open spec fn with_code(code: u16) -> ArithmeticOp {
        if code == 0 {
            ArithmeticOp::Add
        } else if code == 1 {
            ArithmeticOp::Sub
        } else if code == 2 {
            ArithmeticOp::Mul
        } else {
            ArithmeticOp::Div
        }
    }
}

/// The six comparisons.
#[derive(Debug, Clone, Copy, PartialEq, Eq, Structural, PartialOrd, Ord, Hash)]
pub enum CompareOp {
    Eq,
    NotEq,
    Less,
    LessEq,
    Greater,
    GreaterEq,
}

impl CompareOp {
    /// The number of the comparison, as it stands in an instruction word.
    pub open spec fn code(self) -> u16 {
        match self {
            CompareOp::Eq => 0,
            CompareOp::NotEq => 1,
            CompareOp::Less => 2,
            CompareOp::LessEq => 3,
            CompareOp::Greater => 4,
            CompareOp::GreaterEq => 5,
        }
    }

    /// The comparison with the number `code`, for numbers below six.
    pub open spec fn with_code(code: u16) -> CompareOp {
        if code == 0 {
            CompareOp::Eq
        } else if code == 1 {
            CompareOp::NotEq
        } else if code == 2 {
            CompareOp::Less
        } else if code == 3 {
            CompareOp::LessEq
        } else if code == 4 {
            CompareOp::Greater
        } else {
            CompareOp::GreaterEq
        }
    }

    /// Whether the comparison holds of `lhs` and `rhs`, as unsigned numbers.
    pub open spec fn holds(self, lhs: u16, rhs: u16) -> bool {
        match self {
            CompareOp::Eq => lhs == rhs,
            CompareOp::NotEq => lhs != rhs,
            CompareOp::Less => lhs < rhs,
            CompareOp::LessEq => lhs <= rhs,
            CompareOp::Greater => lhs > rhs,
            CompareOp::GreaterEq => lhs >= rhs,
        }
    }
}

/// The text of the error for a number that names no comparison.
pub open spec fn invalid_compare_text(value: usize) -> Seq<char> {
    "invalid compare opcode: "@ + decimal(value as nat)
}

impl TryFrom<usize> for CompareOp {
    type Error = String;

    /// The comparison with the number `value`; numbers from six on name none.
    fn try_from(value: usize) -> (r: Result<Self, String>)
        ensures
            value < 6 ==> r == Ok::<CompareOp, String>(CompareOp::with_code(value as u16)),
            value >= 6 ==> r is Err && r->Err_0@ == invalid_compare_text(value),
    {
        match value {
            0 => Ok(CompareOp::Eq),
            1 => Ok(CompareOp::NotEq),
            2 => Ok(CompareOp::Less),
            3 => Ok(CompareOp::LessEq),
            4 => Ok(CompareOp::Greater),
            5 => Ok(CompareOp::GreaterEq),
            _ => {
                let mut text = String::from_str("invalid compare opcode: ");
                push_decimal(&mut text, value as u64);
                Err(text)
            },
        }
    }
}

impl TryFromSpecImpl<usize> for CompareOp {
    /// The error is a text built anew by every call, so the conversion is
    /// described by the clauses of `try_from` and not by a value.
    open spec fn obeys_try_from_spec() -> bool {
        false
    }

    open spec fn try_from_spec(value: usize) -> Result<Self, String> {
        arbitrary()
    }
}

/// One instruction. In `Arith`, `Jmp`, `CondJmp` and `Cmp` the second operand
/// is either a register or an immediate: exactly one of the two options is set.
#[derive(Debug, Clone, Copy, PartialEq, Eq, PartialOrd, Ord)]
pub enum Instruction {
    /// Does nothing; the word of all zeros.
    Noop,
    /// Sets the register to the 9-bit immediate.
    Mov(Register, u16),
    /// Shifts the register by the 3-bit amount, to the left if the flag is
    /// set, and ors the 5-bit immediate into it.
    MovShift(Register, u8, bool, u16),
    /// Applies the operation to the register and the second operand, a
    /// register or a 6-bit immediate.
    Arith(Register, Option<Register>, Option<u16>, ArithmeticOp),
    /// Loads the first register from, or stores it to, the word at the
    /// address in the second register plus the 5-bit shift.
    LdrStr(Register, Register, bool, u8),
    /// Loads the first register from, or stores its low byte to, the byte at
    /// the address in the second register plus the 5-bit shift.
    LdbStb(Register, Register, bool, u8),
    /// Copies the byte at the address in the first register to the address
    /// in the second.
    Cpy(Register, Register),
    /// Jumps to the address in the register or to the 11-bit immediate.
    Jmp(Option<Register>, Option<u16>),
    /// Jumps like `Jmp` if the last comparison held, and consumes that fact.
    CondJmp(Option<Register>, Option<u16>),
    /// Compares the register with the second operand, a register or a 5-bit
    /// immediate.
    Cmp(Register, Option<Register>, Option<u16>, CompareOp),
    /// Returns to the address in `M` if the flag is set; else calls the
    /// 11-bit address and leaves the return address in `M`.
    CallRet(bool, u16),
}

/// A second operand is well formed: a register or an immediate, not both.
pub open spec fn one_operand(reg: Option<Register>, imm: Option<u16>) -> bool {
    reg is Some <==> imm is None
}

/// A second operand is well formed and its immediate is below `limit`.
pub open spec fn operand_below(reg: Option<Register>, imm: Option<u16>, limit: u16) -> bool {
    one_operand(reg, imm) && (imm is Some ==> imm->0 < limit)
}

impl Instruction {
    /// The second operand, where the instruction has one, is a register or
    /// an immediate and not both.
    pub open spec fn well_formed(self) -> bool {
        match self {
            Instruction::Arith(_, reg, imm, _) => one_operand(reg, imm),
            Instruction::Jmp(reg, imm) => one_operand(reg, imm),
            Instruction::CondJmp(reg, imm) => one_operand(reg, imm),
            Instruction::Cmp(_, reg, imm, _) => one_operand(reg, imm),
            _ => true,
        }
    }

    /// Whether the instruction is well formed.
    pub fn is_well_formed(&self) -> (ok: bool)
        ensures
            ok == self.well_formed(),
    {
        match self {
            Instruction::Arith(_, reg, imm, _) => reg.is_some() != imm.is_some(),
            Instruction::Jmp(reg, imm) => reg.is_some() != imm.is_some(),
            Instruction::CondJmp(reg, imm) => reg.is_some() != imm.is_some(),
            Instruction::Cmp(_, reg, imm, _) => reg.is_some() != imm.is_some(),
            _ => true,
        }
    }

    /// The instruction is well formed and each of its fields fits the bits
    /// that the instruction word has for it.
    pub open spec fn representable(self) -> bool {
        match self {
            Instruction::Noop => true,
            Instruction::Mov(_, imm) => imm < 512,
            Instruction::MovShift(_, amount, _, imm) => amount < 8 && imm < 32,
            Instruction::Arith(_, reg, imm, _) => operand_below(reg, imm, 64),
            Instruction::LdrStr(_, _, _, shift) => shift < 32,
            Instruction::LdbStb(_, _, _, shift) => shift < 32,
            Instruction::Cpy(_, _) => true,
            Instruction::Jmp(reg, imm) => operand_below(reg, imm, 2048),
            Instruction::CondJmp(reg, imm) => operand_below(reg, imm, 2048),
            Instruction::Cmp(_, reg, imm, _) => operand_below(reg, imm, 32),
            Instruction::CallRet(_, addr) => addr < 2048,
        }
    }
}

/// The second operand that `mode` and the register number `code` or the
/// immediate `imm` stand for.
pub open spec fn operand_of(mode: bool, code: u16, imm: u16) -> (Option<Register>, Option<u16>) {
    if mode {
        (Some(Register::with_code(code)), None)
    } else {
        (None, Some(imm))
    }
}

/// The instruction that `word` holds; `None` where the low four bits are no
/// opcode or a comparison has no meaning. The low four bits are the opcode,
/// the fields follow from bit 4 upwards.
pub open spec fn decoded(word: u16) -> Option<Instruction> {
    let opcode = word & 0b1111;
    let first = Register::with_code((word >> 4) & 0b111);
    let second = Register::with_code((word >> 7) & 0b111);
    if opcode == 0b0000 {
        Some(Instruction::Noop)
    } else if opcode == 0b0001 {
        Some(Instruction::Mov(first, (word >> 7) & 0b1_1111_1111))
    } else if opcode == 0b0010 {
        Some(
            Instruction::MovShift(
                first,
                ((word >> 7) & 0b111) as u8,
                (word >> 10) & 0b1 == 1,
                (word >> 11) & 0b1_1111,
            ),
        )
    } else if opcode == 0b0011 {
        let (reg, imm) = operand_of((word >> 9) & 0b1 == 1, (word >> 10) & 0b111, word >> 10);
        Some(Instruction::Arith(first, reg, imm, ArithmeticOp::with_code((word >> 7) & 0b11)))
    } else if opcode == 0b0100 {
        Some(Instruction::LdrStr(first, second, (word >> 10) & 0b1 == 1, (word >> 11) as u8))
    } else if opcode == 0b0101 {
        let (reg, imm) = operand_of(
            (word >> 4) & 0b1 == 1,
            (word >> 5) & 0b111,
            (word >> 5) & 0b111_1111_1111,
        );
        Some(Instruction::CondJmp(reg, imm))
    } else if opcode == 0b0110 {
        let (reg, imm) = operand_of(
            (word >> 4) & 0b1 == 1,
            (word >> 5) & 0b111,
            (word >> 5) & 0b111_1111_1111,
        );
        Some(Instruction::Jmp(reg, imm))
    } else if opcode == 0b0111 {
        let (reg, imm) = operand_of(
            (word >> 10) & 0b1 == 1,
            (word >> 11) & 0b111,
            (word >> 11) & 0b1_1111,
        );
        if (word >> 7) & 0b111 < 6 {
            Some(Instruction::Cmp(first, reg, imm, CompareOp::with_code((word >> 7) & 0b111)))
        } else {
            None
        }
    } else if opcode == 0b1000 {
        Some(Instruction::LdbStb(first, second, (word >> 10) & 0b1 == 1, (word >> 11) as u8))
    } else if opcode == 0b1001 {
        Some(Instruction::Cpy(first, second))
    } else if opcode == 0b1011 {
        Some(Instruction::CallRet((word >> 4) & 0b1 == 1, word >> 5))
    } else {
        None
    }
}

/// The text of the error for a word that holds no instruction.
pub open spec fn decode_error_text(word: u16) -> Seq<char> {
    if word & 0b1111 == 0b0111 {
        invalid_compare_text(((word >> 7) & 0b111) as usize)
    } else {
        "unexpected instruction: "@ + hex_word(word)
    }
}

/// The width of each field of an instruction word.
pub proof fn lemma_field_widths(word: u16)
    by (bit_vector)
    ensures
        word & 0b1111 < 16,
        (word >> 4) & 0b111 < 8,
        (word >> 5) & 0b111 < 8,
        (word >> 7) & 0b111 < 8,
        (word >> 10) & 0b111 < 8,
        (word >> 11) & 0b111 < 8,
        (word >> 7) & 0b11 < 4,
        (word >> 7) & 0b1_1111_1111 < 512,
        (word >> 11) & 0b1_1111 < 32,
        (word >> 5) & 0b111_1111_1111 < 2048,
        word >> 5 < 2048,
        word >> 10 < 64,
        word >> 11 < 32,
{
}

/// Whatever a word decodes to fits the fields of an instruction word.
pub proof fn lemma_decoded_representable(word: u16)
    ensures
        decoded(word) is Some ==> decoded(word)->0.representable(),
{
    lemma_field_widths(word);
}

impl TryFrom<u16> for Instruction {
    type Error = String;

    /// Decodes an instruction word.
    fn try_from(inst: u16) -> (r: Result<Self, String>)
        ensures
            decoded(inst) is Some ==> r == Ok::<Instruction, String>(decoded(inst)->0),
            decoded(inst) is None ==> r is Err && r->Err_0@ == decode_error_text(inst),
            r is Ok ==> r->Ok_0.representable(),
    {
        proof {
            lemma_field_widths(inst);
        }
        let opcode = inst & 0b1111;
        let first = Register::from_code((inst >> 4) & 0b111);
        match opcode {
            0b0000 => Ok(Instruction::Noop),
            0b0001 => Ok(Instruction::Mov(first, (inst >> 7) & 0b1_1111_1111)),
            0b0010 => {
                let amount = ((inst >> 7) & 0b111) as u8;
                let left = (inst >> 10) & 0b1 == 1;
                let imm = (inst >> 11) & 0b1_1111;
                Ok(Instruction::MovShift(first, amount, left, imm))
            },
            0b1001 => {
                let second = Register::from_code((inst >> 7) & 0b111);
                Ok(Instruction::Cpy(first, second))
            },
            0b0011 => {
                let op = match (inst >> 7) & 0b11 {
                    0b00 => ArithmeticOp::Add,
                    0b01 => ArithmeticOp::Sub,
                    0b10 => ArithmeticOp::Mul,
                    _ => ArithmeticOp::Div,
                };
                let by_register = (inst >> 9) & 0b1 == 1;
                if by_register {
                    let source = Register::from_code((inst >> 10) & 0b111);
                    Ok(Instruction::Arith(first, Some(source), None, op))
                } else {
                    Ok(Instruction::Arith(first, None, Some(inst >> 10), op))
                }
            },
            0b0100 => {
                let address = Register::from_code((inst >> 7) & 0b111);
                let store = (inst >> 10) & 0b1 == 1;
                let shift = (inst >> 11) as u8;
                Ok(Instruction::LdrStr(first, address, store, shift))
            },
            0b1000 => {
                let address = Register::from_code((inst >> 7) & 0b111);
                let store = (inst >> 10) & 0b1 == 1;
                let shift = (inst >> 11) as u8;
                Ok(Instruction::LdbStb(first, address, store, shift))
            },
            0b0110 => {
                let by_register = (inst >> 4) & 0b1 == 1;
                if by_register {
                    let target = Register::from_code((inst >> 5) & 0b111);
                    Ok(Instruction::Jmp(Some(target), None))
                } else {
                    Ok(Instruction::Jmp(None, Some((inst >> 5) & 0b111_1111_1111)))
                }
            },
            0b0101 => {
                let by_register = (inst >> 4) & 0b1 == 1;
                if by_register {
                    let target = Register::from_code((inst >> 5) & 0b111);
                    Ok(Instruction::CondJmp(Some(target), None))
                } else {
                    Ok(Instruction::CondJmp(None, Some((inst >> 5) & 0b111_1111_1111)))
                }
            },
            0b0111 => {
                let relation = match CompareOp::try_from(((inst >> 7) & 0b111) as usize) {
                    Ok(relation) => relation,
                    Err(text) => {
                        return Err(text);
                    },
                };
                let by_register = (inst >> 10) & 0b1 == 1;
                if by_register {
                    let other = Register::from_code((inst >> 11) & 0b111);
                    Ok(Instruction::Cmp(first, Some(other), None, relation))
                } else {
                    Ok(Instruction::Cmp(first, None, Some((inst >> 11) & 0b1_1111), relation))
                }
            },
            0b1011 => {
                let is_ret = (inst >> 4) & 0b1 == 1;
                Ok(Instruction::CallRet(is_ret, inst >> 5))
            },
            _ => {
                let mut text = String::from_str("unexpected instruction: ");
                push_hex_word(&mut text, inst);
                Err(text)
            },
        }
    }
}

impl TryFromSpecImpl<u16> for Instruction {
    /// The error is a text built anew by every call, so the conversion is
    /// described by the clauses of `try_from` and not by a value.
    open spec fn obeys_try_from_spec() -> bool {
        false
    }

    open spec fn try_from_spec(inst: u16) -> Result<Self, String> {
        arbitrary()
    }
}

/// The integer `n` reduced to sixteen bits.
pub open spec fn wrap16(n: int) -> u16 {
    (n % 0x1_0000) as u16
}

/// All bits of `flag` are set in `flags`.
pub open spec fn has_flag(flags: u16, flag: u16) -> bool {
    flags & flag == flag
}

/// `flags` with the bits of `flag` cleared and every other bit as it was.
pub open spec fn without_flag(flags: u16, flag: u16) -> u16 {
    flags & !flag
}

/// The value of the register `r` in the register file `regs`.
pub open spec fn reg_of(regs: Seq<u16>, r: Register) -> u16 {
    regs[r.code() as int]
}

/// The register file `regs` with `r` set to `value`.
pub open spec fn with_reg(regs: Seq<u16>, r: Register, value: u16) -> Seq<u16> {
    regs.update(r.code() as int, value)
}

/// The register file with `PC` moved on to the next instruction; the
/// program counter wraps around at the end of the address space.
pub open spec fn advanced(regs: Seq<u16>) -> Seq<u16> {
    with_reg(regs, Register::PC, wrap16(reg_of(regs, Register::PC) + 2))
}

/// The register file with the halt and memory fault bits added to `FLAGS`.
pub open spec fn faulted(regs: Seq<u16>) -> Seq<u16> {
    with_reg(regs, Register::FLAGS, reg_of(regs, Register::FLAGS) | FAULT_FLAGS)
}

/// The register file as it is if `ok`, and with the fault bits added if not.
pub open spec fn faulted_unless(ok: bool, regs: Seq<u16>) -> Seq<u16> {
    if ok {
        regs
    } else {
        faulted(regs)
    }
}

/// The value of a second operand: that of the register, or the immediate.
pub open spec fn operand_value(regs: Seq<u16>, reg: Option<Register>, imm: Option<u16>) -> u16 {
    match (reg, imm) {
        (Some(r), _) => reg_of(regs, r),
        (None, Some(value)) => value,
        (None, None) => 0,
    }
}

/// The address that a load or store reaches: the base plus the shift,
/// wrapping around at the end of the address space.
pub open spec fn shifted_address(base: u16, shift: u8) -> u16 {
    wrap16(base + shift)
}

/// The result of an addition, subtraction or multiplication, modulo 2^16,
/// and of a division by a divisor that is not zero.
pub open spec fn arithmetic_result(op: ArithmeticOp, lhs: u16, rhs: u16) -> u16 {
    match op {
        ArithmeticOp::Add => wrap16(lhs + rhs),
        ArithmeticOp::Sub => wrap16(lhs - rhs),
        ArithmeticOp::Mul => wrap16(lhs * rhs),
        ArithmeticOp::Div => (lhs as int / rhs as int) as u16,
    }
}

/// The byte that a division leaves at `[SP]`: the low eight bits of the remainder.
pub open spec fn remainder_byte(lhs: u16, rhs: u16) -> u8 {
    (((lhs as int % rhs as int) as u16) & 0x00ff) as u8
}

/// `FLAGS` after a comparison: the comparison bit says whether it held, and
/// every other bit is as it was.
pub open spec fn compared_flags(flags: u16, held: bool) -> u16 {
    if held {
        flags | FLAG_CMPTRUE
    } else {
        without_flag(flags, FLAG_CMPTRUE)
    }
}

/// The register file after a jump to the operand.
pub open spec fn jumped(regs: Seq<u16>, reg: Option<Register>, imm: Option<u16>) -> Seq<u16> {
    with_reg(regs, Register::PC, operand_value(regs, reg, imm))
}

/// The instruction reads or writes memory when it runs on `regs`: byte
/// copies, loads and stores always, and a division that stores its
/// remainder.
pub open spec fn uses_memory(regs: Seq<u16>, inst: Instruction) -> bool {
    match inst {
        Instruction::Cpy(_, _) => true,
        Instruction::LdrStr(_, _, _, _) => true,
        Instruction::LdbStb(_, _, _, _) => true,
        Instruction::Arith(_, reg, imm, ArithmeticOp::Div) => has_flag(
            reg_of(regs, Register::FLAGS),
            FLAG_DIVMOD,
        ) && operand_value(regs, reg, imm) != 0,
        _ => false,
    }
}

/// The register file after an instruction that leaves memory alone.
///
/// A division by zero changes nothing but `FLAGS`, which gets the halt and
/// memory fault bits. A conditional jump that is taken clears the comparison
/// bit before it reads its target. Jumps, calls and returns set `PC`; after
/// every other instruction `PC` moves on by two.
pub open spec fn register_step(regs: Seq<u16>, inst: Instruction) -> Seq<u16> {
    let flags = reg_of(regs, Register::FLAGS);
    match inst {
        Instruction::Mov(dst, imm) => advanced(with_reg(regs, dst, imm)),
        Instruction::MovShift(dst, amount, left, imm) => {
            let shifted = if left {
                reg_of(regs, dst) << amount
            } else {
                reg_of(regs, dst) >> amount
            };
            advanced(with_reg(regs, dst, shifted | imm))
        },
        Instruction::Arith(dst, reg, imm, op) => {
            let rhs = operand_value(regs, reg, imm);
            if op == ArithmeticOp::Div && rhs == 0 {
                advanced(faulted(regs))
            } else {
                advanced(with_reg(regs, dst, arithmetic_result(op, reg_of(regs, dst), rhs)))
            }
        },
        Instruction::Jmp(reg, imm) => jumped(regs, reg, imm),
        Instruction::CondJmp(reg, imm) => if has_flag(flags, FLAG_CMPTRUE) {
            jumped(with_reg(regs, Register::FLAGS, without_flag(flags, FLAG_CMPTRUE)), reg, imm)
        } else {
            advanced(regs)
        },
        Instruction::Cmp(first, reg, imm, relation) => {
            let held = relation.holds(reg_of(regs, first), operand_value(regs, reg, imm));
            advanced(with_reg(regs, Register::FLAGS, compared_flags(flags, held)))
        },
        Instruction::CallRet(is_ret, addr) => if is_ret {
            with_reg(regs, Register::PC, reg_of(regs, Register::M))
        } else {
            with_reg(
                with_reg(regs, Register::PC, addr),
                Register::M,
                wrap16(reg_of(regs, Register::PC) + 2),
            )
        },
        _ => regs,
    }
}

/// An instruction that uses memory may take the registers `regs` and the
/// memory `mem` to `after_regs` and `after_mem`.
///
/// A rejected write, and a copy that fails, add the halt and memory fault
/// bits to `FLAGS`; a load from an unreadable address leaves the register as
/// it was. `PC` always moves on by two.
pub open spec fn memory_step<M: MemoryModel>(
    regs: Seq<u16>,
    mem: &M,
    inst: Instruction,
    after_regs: Seq<u16>,
    after_mem: &M,
) -> bool {
    match inst {
        Instruction::Cpy(from, to) => exists|ok: bool|
            {
                &&& #[trigger] copies(
                    mem,
                    reg_of(regs, from),
                    reg_of(regs, to),
                    1,
                    after_mem,
                    ok,
                )
                &&& after_regs == advanced(faulted_unless(ok, regs))
            },
        Instruction::LdrStr(first, base, store, shift) => {
            let at = shifted_address(reg_of(regs, base), shift);
            if store {
                exists|ok: bool|
                    {
                        &&& #[trigger] writes_word(mem, at, reg_of(regs, first), after_mem, ok)
                        &&& after_regs == advanced(faulted_unless(ok, regs))
                    }
            } else {
                exists|got: Option<u16>|
                    {
                        &&& #[trigger] reads_word(mem, at, got)
                        &&& *after_mem == *mem
                        &&& after_regs == advanced(
                            match got {
                                Some(value) => with_reg(regs, first, value),
                                None => regs,
                            },
                        )
                    }
            }
        },
        Instruction::LdbStb(first, base, store, shift) => {
            let at = shifted_address(reg_of(regs, base), shift);
            if store {
                exists|ok: bool|
                    {
                        &&& #[trigger] mem.writes(
                            at,
                            low_byte(reg_of(regs, first)),
                            after_mem,
                            ok,
                        )
                        &&& after_regs == advanced(faulted_unless(ok, regs))
                    }
            } else {
                exists|got: Option<u8>|
                    {
                        &&& #[trigger] mem.reads(at, got)
                        &&& *after_mem == *mem
                        &&& after_regs == advanced(
                            match got {
                                Some(value) => with_reg(regs, first, value as u16),
                                None => regs,
                            },
                        )
                    }
            }
        },
        Instruction::Arith(dst, reg, imm, op) => {
            let lhs = reg_of(regs, dst);
            let rhs = operand_value(regs, reg, imm);
            exists|ok: bool|
                {
                    &&& #[trigger] mem.writes(
                        reg_of(regs, Register::SP),
                        remainder_byte(lhs, rhs),
                        after_mem,
                        ok,
                    )
                    &&& after_regs == advanced(
                        faulted_unless(ok, with_reg(regs, dst, arithmetic_result(op, lhs, rhs))),
                    )
                }
        },
        _ => false,
    }
}

/// What a step returns.
#[derive(Debug, Clone, Copy, PartialEq, Eq, Structural, PartialOrd)]
pub enum State {
    /// The instruction ran; the machine can step again.
    Continue,
    /// The machine is halted.
    Stop,
}

/// The text of the error for a program counter that no instruction can be
/// read at.
pub open spec fn unreadable_text(pc: u16) -> Seq<char> {
    "unreadable instruction: "@ + hex_word(pc)
}

/// The text of the error for running the instruction that does nothing.
pub open spec fn noop_text() -> Seq<char> {
    "invalid instruction: Noop"@
}

/// The numeral of `value` in base sixteen, with `0x` before it and at least
/// two digits.
pub open spec fn short_hex(value: u16) -> Seq<char> {
    if value < 16 {
        "0x0"@ + hexadecimal(value as nat)
    } else {
        "0x"@ + hexadecimal(value as nat)
    }
}

/// The line that shows a register: its name and its value in base two,
/// sixteen and ten.
pub open spec fn register_line(reg: Register, value: u16) -> Seq<char> {
    reg.name() + ":\t"@ + binary_word(value) + " | "@ + short_hex(value) + " | "@ + decimal(
        value as nat,
    ) + "\n"@
}

/// The lines that show the registers from number `from` on.
pub open spec fn register_lines(regs: Seq<u16>, from: int) -> Seq<char>
    decreases 8 - from,
{
    if from < 0 || from >= 8 {
        Seq::empty()
    } else {
        register_line(Register::with_code(from as u16), regs[from]) + register_lines(
            regs,
            from + 1,
        )
    }
}

/// A machine: eight 16-bit registers and a memory.
pub struct Machine<M: Addressable> {
    registers: [u16; 8],
    memory: M,
}

/// One step may take registers `regs` and memory `mem` to `after_regs` and
/// `after_mem` and return `outcome`.
///
/// A halted machine stops and changes nothing. Else the word at `PC` is read
/// and decoded; if that fails, or the instruction is `Noop`, the step fails
/// with the text of the error and changes nothing. Any other instruction
/// runs, and the step continues.
pub open spec fn steps<M: MemoryModel>(
    regs: Seq<u16>,
    mem: &M,
    after_regs: Seq<u16>,
    after_mem: &M,
    outcome: Result<State, Seq<char>>,
) -> bool {
    if has_flag(reg_of(regs, Register::FLAGS), FLAG_HALT) {
        after_regs == regs && *after_mem == *mem && outcome == Ok::<State, Seq<char>>(State::Stop)
    } else {
        exists|fetched: Option<u16>|
            {
                &&& #[trigger] reads_word(mem, reg_of(regs, Register::PC), fetched)
                &&& steps_on(regs, mem, fetched, after_regs, after_mem, outcome)
            }
    }
}

/// What a step does once the fetch at `PC` has answered `fetched`.
pub open spec fn steps_on<M: MemoryModel>(
    regs: Seq<u16>,
    mem: &M,
    fetched: Option<u16>,
    after_regs: Seq<u16>,
    after_mem: &M,
    outcome: Result<State, Seq<char>>,
) -> bool {
    let unchanged = after_regs == regs && *after_mem == *mem;
    match fetched {
        None => unchanged && outcome == Err::<State, Seq<char>>(
            unreadable_text(reg_of(regs, Register::PC)),
        ),
        Some(word) => match decoded(word) {
            None => unchanged && outcome == Err::<State, Seq<char>>(decode_error_text(word)),
            Some(Instruction::Noop) => unchanged && outcome == Err::<State, Seq<char>>(
                noop_text(),
            ),
            Some(inst) => {
                &&& outcome == Ok::<State, Seq<char>>(State::Continue)
                &&& if uses_memory(regs, inst) {
                    memory_step(regs, mem, inst, after_regs, after_mem)
                } else {
                    after_regs == register_step(regs, inst) && *after_mem == *mem
                }
            },
        },
    }
}

/// The outcome of a step with the text of its error in place of the string.
pub open spec fn outcome_of(r: Result<State, String>) -> Result<State, Seq<char>> {
    match r {
        Ok(state) => Ok(state),
        Err(text) => Err(text@),
    }
}

/// Wrapping arithmetic on 16-bit values is arithmetic modulo 2^16.
pub proof fn lemma_wrapping(lhs: u16, rhs: u16)
    ensures
        vstd::wrapping::u16_specs::wrapping_add(lhs, rhs) == wrap16(lhs + rhs),
        vstd::wrapping::u16_specs::wrapping_sub(lhs, rhs) == wrap16(lhs - rhs),
        vstd::wrapping::u16_specs::wrapping_mul(lhs, rhs) == wrap16(lhs * rhs),
{
}

/// How the tests that the interpreter makes on `FLAGS` read as flags.
pub proof fn lemma_flag_tests(flags: u16)
    by (bit_vector)
    ensures
        (flags & 0b1 == 1) == (flags & 0b0001 == 0b0001),
        ((flags >> 1) & 0b1 == 1) == (flags & 0b0010 == 0b0010),
        ((flags >> 3) & 0b1 == 1) == (flags & 0b1000 == 0b1000),
        (flags & (1u16 << 3u16) != 0) == (flags & 0b1000 == 0b1000),
        flags & 0b1000 == 0b1000 ==> flags ^ 0b1000 == flags & !0b1000u16,
        flags & 0b1000 != 0b1000 ==> flags == flags & !0b1000u16,
        (1u16 << 3u16) == 0b1000,
        ((0b1u16 << 2u16) | 0b1) == 0b0101,
{
}

impl<M: Addressable> Machine<M> {
    /// The register file: eight values, indexed by the registers' numbers.
    pub closed spec fn regs(&self) -> Seq<u16> {
        self.registers@
    }

    /// The memory.
    pub closed spec fn mem(&self) -> &M {
        &self.memory
    }

    /// The memory is well formed.
    pub open spec fn wf(&self) -> bool {
        self.mem().wf()
    }

    /// There are eight registers.
    pub proof fn lemma_eight_registers(&self)
        ensures
            self.regs().len() == 8,
    {
    }

    /// A machine on `mem` with every register at zero.
    pub fn new(mem: M) -> (machine: Self)
        ensures
            machine.regs() == Seq::new(8, |i: int| 0u16),
            *machine.mem() == mem,
    {
        let machine = Self { registers: [0;8], memory: mem };
        assert(machine.regs() =~= Seq::new(8, |i: int| 0u16));
        machine
    }

    /// Sets the register `reg` to `value`.
    pub fn set_register(&mut self, reg: Register, value: u16)
        ensures
            final(self).regs() == with_reg(old(self).regs(), reg, value),
            *final(self).mem() == *old(self).mem(),
    {
        self.registers[reg.index()] = value;
    }

    /// The value of the register `reg`.
    pub fn register(&self, reg: Register) -> (value: u16)
        ensures
            value == reg_of(self.regs(), reg),
    {
        self.registers[reg.index()]
    }

    /// The registers as text, one line for each: the name of the register
    /// and its value in base two, sixteen and ten.
    pub fn registers_text(&self) -> (text: String)
        ensures
            text@ == register_lines(self.regs(), 0),
    {
        let mut text = String::new();
        let mut i: u16 = 0;
        assert(text@ + register_lines(self.regs(), 0) =~= register_lines(self.regs(), 0));
        while i < 8
            invariant
                i <= 8,
                text@ + register_lines(self.regs(), i as int) == register_lines(self.regs(), 0),
            decreases 8 - i,
        {
            let reg = Register::from_code(i);
            let value = self.register(reg);
            let ghost before = text@;
            let name = reg.to_string();
            text.append(name.as_str());
            text.append(":\t");
            push_binary_word(&mut text, value);
            text.append(" | ");
            if value < 16 {
                text.append("0x0");
            } else {
                text.append("0x");
            }
            push_hexadecimal(&mut text, value as u64);
            text.append(" | ");
            push_decimal(&mut text, value as u64);
            text.append("\n");
            assert(text@ =~= before + register_line(reg, value));
            assert(text@ + register_lines(self.regs(), i + 1) =~= before + (register_line(
                reg,
                value,
            ) + register_lines(self.regs(), i + 1)));
            i += 1;
        }
        assert(text@ + Seq::<char>::empty() =~= text@);
        text
    }

    /// The memory of the machine.
    pub fn memory(&self) -> (mem: &M)
        ensures
            mem == self.mem(),
    {
        &self.memory
    }

    /// Runs one instruction, unless the machine is halted.
    pub fn step(&mut self) -> (r: Result<State, String>)
        requires
            old(self).wf(),
        ensures
            final(self).wf(),
            final(self).regs().len() == 8,
            steps(
                old(self).regs(),
                old(self).mem(),
                final(self).regs(),
                final(self).mem(),
                outcome_of(r),
            ),
    {
        let ghost regs = self.regs();
        let ghost mem = self.memory;
        let flags = self.register(Register::FLAGS);
        proof {
            lemma_flag_tests(flags);
        }
        let halt = flags & 0b1 == 1;
        if halt {
            return Ok(State::Stop);
        }
        let pc = self.register(Register::PC);
        let fetched = self.memory.read2(pc);
        let raw = match fetched {
            Some(raw) => raw,
            None => {
                let mut text = String::from_str("unreadable instruction: ");
                push_hex_word(&mut text, pc);
                assert(steps_on(regs, &mem, fetched, regs, &mem, Err(text@)));
                return Err(text);
            },
        };
        let inst = match Instruction::try_from(raw) {
            Ok(inst) => inst,
            Err(text) => {
                assert(steps_on(regs, &mem, fetched, regs, &mem, Err(text@)));
                return Err(text);
            },
        };
        match inst {
            Instruction::Noop => {
                let text = String::from_str("invalid instruction: Noop");
                assert(steps_on(regs, &mem, fetched, regs, &mem, Err(text@)));
                return Err(text);
            },
            Instruction::Mov(dst, imm) => {
                self.set_register(dst, imm);
                assert(advanced(self.regs()) == register_step(regs, inst));
            },
            Instruction::MovShift(dst, amount, left, imm) => {
                let mut value = self.register(dst);
                if left {
                    value = value << amount;
                } else {
                    value = value >> amount;
                }
                value = value | imm;
                self.set_register(dst, value);
                assert(advanced(self.regs()) == register_step(regs, inst));
            },
            Instruction::Cpy(from, to) => {
                let from_addr = self.register(from);
                let to_addr = self.register(to);
                let ok = self.memory.copy(from_addr, to_addr, 1);
                if !ok {
                    self.set_flags(FAULT_FLAGS);
                }
                assert(memory_step(regs, &mem, inst, advanced(self.regs()), self.mem()));
            },
            Instruction::Arith(dst, reg, imm, op) => {
                let rhs = match (reg, imm) {
                    (Some(source), _) => self.register(source),
                    (None, Some(value)) => value,
                    (None, None) => 0,
                };
                self.arithmetic_op(dst, rhs, op);
                assert(uses_memory(regs, inst) ==> memory_step(
                    regs,
                    &mem,
                    inst,
                    advanced(self.regs()),
                    self.mem(),
                ));
                assert(!uses_memory(regs, inst) ==> advanced(self.regs()) == register_step(
                    regs,
                    inst,
                ) && *self.mem() == mem);
            },
            Instruction::LdrStr(first, base, store, shift) => {
                let at = self.register(base).wrapping_add(shift as u16);
                proof {
                    lemma_wrapping(reg_of(regs, base), shift as u16);
                    assert(at == shifted_address(reg_of(regs, base), shift));
                }
                if store {
                    let value = self.register(first);
                    let ok = self.memory.write2(at, value);
                    if !ok {
                        self.set_flags(FAULT_FLAGS);
                    }
                } else {
                    let got = self.memory.read2(at);
                    if let Some(value) = got {
                        self.set_register(first, value);
                    }
                }
                assert(memory_step(regs, &mem, inst, advanced(self.regs()), self.mem()));
            },
            Instruction::LdbStb(first, base, store, shift) => {
                let at = self.register(base).wrapping_add(shift as u16);
                proof {
                    lemma_wrapping(reg_of(regs, base), shift as u16);
                    assert(at == shifted_address(reg_of(regs, base), shift));
                }
                if store {
                    let value = #[verifier::truncate] ((self.register(first) & 0x00ff) as u8);
                    let ok = self.memory.write(at, value);
                    if !ok {
                        self.set_flags(FAULT_FLAGS);
                    }
                    assert(value == low_byte(reg_of(regs, first)));
                    assert(mem.writes(at, value, self.mem(), ok));
                } else {
                    let got = self.memory.read(at);
                    if let Some(value) = got {
                        self.set_register(first, value as u16);
                    }
                    assert(mem.reads(at, got));
                }
                assert(memory_step(regs, &mem, inst, advanced(self.regs()), self.mem()));
            },
            Instruction::Jmp(reg, imm) => {
                let target = match (reg, imm) {
                    (Some(source), _) => self.register(source),
                    (None, Some(value)) => value,
                    (None, None) => 0,
                };
                self.set_register(Register::PC, target);
                assert(steps_on(regs, &mem, fetched, self.regs(), self.mem(), Ok(State::Continue)));
                return Ok(State::Continue);
            },
            Instruction::CondJmp(reg, imm) => {
                let jump = (flags >> 3) & 0b1 == 1;
                if jump {
                    self.set_register(Register::FLAGS, flags ^ (1 << 3));
                    let target = match (reg, imm) {
                        (Some(source), _) => self.register(source),
                        (None, Some(value)) => value,
                        (None, None) => 0,
                    };
                    self.set_register(Register::PC, target);
                    assert(steps_on(
                        regs,
                        &mem,
                        fetched,
                        self.regs(),
                        self.mem(),
                        Ok(State::Continue),
                    ));
                    return Ok(State::Continue);
                }
                assert(advanced(self.regs()) == register_step(regs, inst));
            },
            Instruction::Cmp(first, reg, imm, relation) => {
                let lhs = self.register(first);
                let rhs = match (reg, imm) {
                    (Some(other), _) => self.register(other),
                    (None, Some(value)) => value,
                    (None, None) => 0,
                };
                self.compare_op(lhs, rhs, relation);
                assert(advanced(self.regs()) == register_step(regs, inst));
            },
            Instruction::CallRet(is_ret, addr) => {
                if is_ret {
                    let back = self.register(Register::M);
                    self.set_register(Register::PC, back);
                } else {
                    self.set_register(Register::PC, addr);
                    self.set_register(Register::M, pc.wrapping_add(2));
                }
                assert(steps_on(regs, &mem, fetched, self.regs(), self.mem(), Ok(State::Continue)));
                return Ok(State::Continue);
            },
        }
        self.advance();
        assert(steps_on(regs, &mem, fetched, self.regs(), self.mem(), Ok(State::Continue)));
        Ok(State::Continue)
    }

    /// Moves `PC` on to the next instruction.
    fn advance(&mut self)
        requires
            old(self).wf(),
        ensures
            final(self).wf(),
            *final(self).mem() == *old(self).mem(),
            final(self).regs() == advanced(old(self).regs()),
    {
        let next = self.register(Register::PC).wrapping_add(2);
        self.set_register(Register::PC, next);
    }

    /// Adds the bits of `flags` to `FLAGS`.
    fn set_flags(&mut self, flags: u16)
        requires
            old(self).wf(),
        ensures
            final(self).wf(),
            *final(self).mem() == *old(self).mem(),
            final(self).regs() == with_reg(
                old(self).regs(),
                Register::FLAGS,
                reg_of(old(self).regs(), Register::FLAGS) | flags,
            ),
    {
        let now = self.register(Register::FLAGS);
        self.set_register(Register::FLAGS, now | flags);
    }

    /// Flips the bits of `flags` in `FLAGS`.
    fn remove_flags(&mut self, flags: u16)
        requires
            old(self).wf(),
        ensures
            final(self).wf(),
            *final(self).mem() == *old(self).mem(),
            final(self).regs() == with_reg(
                old(self).regs(),
                Register::FLAGS,
                reg_of(old(self).regs(), Register::FLAGS) ^ flags,
            ),
    {
        let now = self.register(Register::FLAGS);
        self.set_register(Register::FLAGS, now ^ flags);
    }

    /// Whether bit `idx` of `FLAGS` is set.
    fn is_flag_active(&self, idx: u16) -> (active: bool)
        requires
            self.wf(),
            idx < 16,
        ensures
            active == (reg_of(self.regs(), Register::FLAGS) & (1u16 << idx) != 0),
    {
        let flags = self.register(Register::FLAGS);
        let bit = flags & (1u16 << idx);
        bit != 0
    }

    /// Applies `op` to the register `dst` and the value `rhs`.
    fn arithmetic_op(&mut self, dst: Register, rhs: u16, op: ArithmeticOp)
        requires
            old(self).wf(),
        ensures
            final(self).wf(),
            arithmetic_effect(
                old(self).regs(),
                old(self).mem(),
                dst,
                rhs,
                op,
                final(self).regs(),
                final(self).mem(),
            ),
    {
        let lhs = self.register(dst);
        let ghost regs = self.regs();
        let ghost mem = self.memory;
        let mut stored = true;
        proof {
            lemma_wrapping(lhs, rhs);
        }
        let result = match op {
            ArithmeticOp::Add => lhs.wrapping_add(rhs),
            ArithmeticOp::Sub => lhs.wrapping_sub(rhs),
            ArithmeticOp::Mul => lhs.wrapping_mul(rhs),
            ArithmeticOp::Div => {
                if rhs == 0 {
                    self.set_flags(FAULT_FLAGS);
                    return ;
                }
                let flags = self.register(Register::FLAGS);
                proof {
                    lemma_flag_tests(flags);
                }
                let store_remainder = (flags >> 1) & 0b1 == 1;
                if store_remainder {
                    let at = self.register(Register::SP);
                    let remainder = #[verifier::truncate] (((lhs % rhs) & 0x00ff) as u8);
                    stored = self.memory.write(at, remainder);
                }
                lhs / rhs
            },
        };
        self.set_register(dst, result);
        if !stored {
            self.set_flags(FAULT_FLAGS);
        }
        proof {
            if op == ArithmeticOp::Div && has_flag(reg_of(regs, Register::FLAGS), FLAG_DIVMOD) {
                assert(mem.writes(
                    reg_of(regs, Register::SP),
                    remainder_byte(lhs, rhs),
                    self.mem(),
                    stored,
                ));
            }
        }
    }

    /// Records in `FLAGS` whether `op` holds of `lhs` and `rhs`.
    fn compare_op(&mut self, lhs: u16, rhs: u16, op: CompareOp)
        requires
            old(self).wf(),
        ensures
            final(self).wf(),
            *final(self).mem() == *old(self).mem(),
            final(self).regs() == with_reg(
                old(self).regs(),
                Register::FLAGS,
                compared_flags(reg_of(old(self).regs(), Register::FLAGS), op.holds(lhs, rhs)),
            ),
    {
        let is_true = match op {
            CompareOp::Eq => lhs == rhs,
            CompareOp::NotEq => lhs != rhs,
            CompareOp::Less => lhs < rhs,
            CompareOp::LessEq => lhs <= rhs,
            CompareOp::Greater => lhs > rhs,
            CompareOp::GreaterEq => lhs >= rhs,
        };
        proof {
            lemma_flag_tests(reg_of(self.regs(), Register::FLAGS));
        }
        if is_true {
            self.set_flags(1 << 3);
        } else if self.is_flag_active(3) {
            self.remove_flags(1 << 3);
        } else {
            assert(self.regs() =~= with_reg(
                self.regs(),
                Register::FLAGS,
                reg_of(self.regs(), Register::FLAGS),
            ));
        }
    }
}

/// What an arithmetic instruction on `dst` with the second operand `rhs`
/// may do to registers and memory, `PC` apart.
///
/// A division by zero adds the halt and memory fault bits to `FLAGS` and
/// changes nothing else. A division with the remainder bit set writes the
/// low byte of the remainder at `[SP]`; if that write is rejected, the
/// quotient is stored all the same and the fault bits are added after it.
pub open spec fn arithmetic_effect<M: MemoryModel>(
    regs: Seq<u16>,
    mem: &M,
    dst: Register,
    rhs: u16,
    op: ArithmeticOp,
    after_regs: Seq<u16>,
    after_mem: &M,
) -> bool {
    let lhs = reg_of(regs, dst);
    let result = with_reg(regs, dst, arithmetic_result(op, lhs, rhs));
    if op == ArithmeticOp::Div && rhs == 0 {
        after_regs == faulted(regs) && *after_mem == *mem
    } else if op == ArithmeticOp::Div && has_flag(reg_of(regs, Register::FLAGS), FLAG_DIVMOD) {
        exists|ok: bool|
            {
                &&& #[trigger] mem.writes(
                    reg_of(regs, Register::SP),
                    remainder_byte(lhs, rhs),
                    after_mem,
                    ok,
                )
                &&& after_regs == faulted_unless(ok, result)
            }
    } else {
        after_regs == result && *after_mem == *mem
    }
}

/// What the flag operations of the interpreter do to single flags.
pub proof fn lemma_flag_updates(flags: u16)
    by (bit_vector)
    ensures
        (flags | 0b0101) & 0b0101 == 0b0101,
        (flags | 0b1000) & 0b1000 == 0b1000,
        (flags & !0b1000u16) & 0b1000 != 0b1000,
        (flags | 0b1000) & 0b0111 == flags & 0b0111,
        (flags & !0b1000u16) & 0b0111 == flags & 0b0111,
        (flags | 0b1000) & 0xfff0 == flags & 0xfff0,
        (flags & !0b1000u16) & 0xfff0 == flags & 0xfff0,
{
}

/// The flag updates of the interpreter leave every bit that they are not
/// about as it was: a comparison and a conditional jump change the
/// comparison bit alone, a fault the halt and memory fault bits alone.
pub proof fn lemma_other_flags_stay(flags: u16, held: bool)
    ensures
        compared_flags(flags, held) & !FLAG_CMPTRUE == flags & !FLAG_CMPTRUE,
        without_flag(flags, FLAG_CMPTRUE) & !FLAG_CMPTRUE == flags & !FLAG_CMPTRUE,
        (flags | FAULT_FLAGS) & !FAULT_FLAGS == flags & !FAULT_FLAGS,
        has_flag(compared_flags(flags, held), FLAG_CMPTRUE) == held,
        !has_flag(without_flag(flags, FLAG_CMPTRUE), FLAG_CMPTRUE),
        has_flag(flags | FAULT_FLAGS, FLAG_HALT),
        has_flag(flags | FAULT_FLAGS, FLAG_MEMFAULT),
{
    assert((flags | 0b1000) & !0b1000u16 == flags & !0b1000u16 && (flags & !0b1000u16)
        & !0b1000u16 == flags & !0b1000u16 && (flags | 0b0101) & !0b0101u16 == flags & !0b0101u16
        && (flags | 0b1000) & 0b1000 == 0b1000 && (flags & !0b1000u16) & 0b1000 != 0b1000 && (flags
        | 0b0101) & 0b0001 == 0b0001 && (flags | 0b0101) & 0b0100 == 0b0100) by (bit_vector);
}

/// After a jump to the immediate `n` the next instruction is fetched at `n`.
pub proof fn lemma_jump_lands(regs: Seq<u16>, n: u16)
    requires
        regs.len() == 8,
    ensures
        reg_of(register_step(regs, Instruction::Jmp(None, Some(n))), Register::PC) == n,
        forall|r: Register|
            r != Register::PC ==> reg_of(
                register_step(regs, Instruction::Jmp(None, Some(n))),
                r,
            ) == reg_of(regs, r),
{
}

/// A comparison sets the comparison bit exactly if it holds, and leaves the
/// other bits of `FLAGS` as they were.
pub proof fn lemma_compare_settles(
    regs: Seq<u16>,
    first: Register,
    reg: Option<Register>,
    imm: Option<u16>,
    relation: CompareOp,
)
    requires
        regs.len() == 8,
    ensures
        ({
            let after = register_step(regs, Instruction::Cmp(first, reg, imm, relation));
            let held = relation.holds(reg_of(regs, first), operand_value(regs, reg, imm));
            &&& has_flag(reg_of(after, Register::FLAGS), FLAG_CMPTRUE) == held
            &&& reg_of(after, Register::FLAGS) & 0b0111 == reg_of(regs, Register::FLAGS) & 0b0111
            &&& reg_of(after, Register::FLAGS) & 0xfff0 == reg_of(regs, Register::FLAGS)
                & 0xfff0
        }),
{
    lemma_flag_updates(reg_of(regs, Register::FLAGS));
}

/// A conditional jump to the immediate `n` right after a comparison: if the
/// comparison held, the next instruction is fetched at `n` and the
/// comparison bit is clear again; if not, `PC` has moved on by two from the
/// conditional jump.
pub proof fn lemma_conditional_jump(
    regs: Seq<u16>,
    first: Register,
    reg: Option<Register>,
    imm: Option<u16>,
    relation: CompareOp,
    n: u16,
)
    requires
        regs.len() == 8,
    ensures
        ({
            let compared = register_step(regs, Instruction::Cmp(first, reg, imm, relation));
            let after = register_step(compared, Instruction::CondJmp(None, Some(n)));
            let held = relation.holds(reg_of(regs, first), operand_value(regs, reg, imm));
            &&& held ==> reg_of(after, Register::PC) == n && !has_flag(
                reg_of(after, Register::FLAGS),
                FLAG_CMPTRUE,
            )
            &&& !held ==> reg_of(after, Register::PC) == wrap16(
                reg_of(compared, Register::PC) + 2,
            ) && reg_of(after, Register::FLAGS) == reg_of(compared, Register::FLAGS)
        }),
{
    let flags = reg_of(regs, Register::FLAGS);
    lemma_flag_updates(flags);
    lemma_flag_updates(flags | FLAG_CMPTRUE);
}

/// A call leaves in `M` the address of the instruction after it, and a
/// return that finds `M` as the call left it continues there.
pub proof fn lemma_call_then_return(regs: Seq<u16>, n: u16, later: Seq<u16>, ignored: u16)
    requires
        regs.len() == 8,
        later.len() == 8,
        reg_of(later, Register::M) == reg_of(
            register_step(regs, Instruction::CallRet(false, n)),
            Register::M,
        ),
    ensures
        reg_of(register_step(regs, Instruction::CallRet(false, n)), Register::PC) == n,
        reg_of(register_step(later, Instruction::CallRet(true, ignored)), Register::PC) == wrap16(
            reg_of(regs, Register::PC) + 2,
        ),
{
}

/// Registers with the fault bits added show both the halt and the memory
/// fault flag, also after `PC` has moved on.
pub proof fn lemma_fault_shows(regs: Seq<u16>)
    requires
        regs.len() == 8,
    ensures
        has_flag(reg_of(faulted(regs), Register::FLAGS), FAULT_FLAGS),
        has_flag(reg_of(advanced(faulted(regs)), Register::FLAGS), FAULT_FLAGS),
        has_flag(reg_of(advanced(faulted(regs)), Register::FLAGS), FLAG_HALT),
        has_flag(reg_of(advanced(faulted(regs)), Register::FLAGS), FLAG_MEMFAULT),
{
    let flags = reg_of(regs, Register::FLAGS);
    lemma_flag_updates(flags);
    assert((flags | 0b0101) & 0b0001 == 0b0001 && (flags | 0b0101) & 0b0100 == 0b0100)
        by (bit_vector);
}

/// A byte store that a linear memory rejects leaves every byte as it was and
/// sets the halt and memory fault flags.
pub proof fn lemma_rejected_byte_store(
    regs: Seq<u16>,
    mem: &LinearMemory,
    first: Register,
    base: Register,
    shift: u8,
    after_regs: Seq<u16>,
    after_mem: &LinearMemory,
)
    requires
        regs.len() == 8,
        memory_step(regs, mem, Instruction::LdbStb(first, base, true, shift), after_regs, after_mem),
        !mem.accepts(shifted_address(reg_of(regs, base), shift)),
    ensures
        after_mem.bytes() == mem.bytes(),
        after_mem.read_only() == mem.read_only(),
        has_flag(reg_of(after_regs, Register::FLAGS), FAULT_FLAGS),
{
    lemma_fault_shows(regs);
}

/// A word store of which a linear memory rejects a byte leaves the rejected
/// byte, and every byte but an accepted low byte, as it was, and sets the
/// halt and memory fault flags.
pub proof fn lemma_rejected_word_store(
    regs: Seq<u16>,
    mem: &LinearMemory,
    first: Register,
    base: Register,
    shift: u8,
    after_regs: Seq<u16>,
    after_mem: &LinearMemory,
)
    requires
        regs.len() == 8,
        memory_step(regs, mem, Instruction::LdrStr(first, base, true, shift), after_regs, after_mem),
        ({
            let at = shifted_address(reg_of(regs, base), shift);
            !mem.accepts(at) || at == LAST_ADDRESS || !mem.accepts((at + 1) as u16)
        }),
    ensures
        ({
            let at = shifted_address(reg_of(regs, base), shift);
            &&& !mem.accepts(at) ==> after_mem.bytes() == mem.bytes()
            &&& mem.accepts(at) ==> after_mem.bytes() == mem.bytes().update(
                at as int,
                low_byte(reg_of(regs, first)),
            )
        }),
        after_mem.read_only() == mem.read_only(),
        has_flag(reg_of(after_regs, Register::FLAGS), FAULT_FLAGS),
{
    lemma_fault_shows(regs);
    let at = shifted_address(reg_of(regs, base), shift);
    let ok = choose|ok: bool|
        {
            &&& #[trigger] writes_word(mem, at, reg_of(regs, first), after_mem, ok)
            &&& after_regs == advanced(faulted_unless(ok, regs))
        };
    let (mid, low_ok) = choose|mid: &LinearMemory, low_ok: bool| #[trigger]
        writes_word_through(mem, at, reg_of(regs, first), mid, low_ok, after_mem, ok);
    assert(mid.accepts((at + 1) as u16) == mem.accepts((at + 1) as u16));
}

/// A copy of a readable byte that a linear memory rejects at its
/// destination leaves every byte as it was and sets the halt and memory
/// fault flags.
pub proof fn lemma_rejected_copy(
    regs: Seq<u16>,
    mem: &LinearMemory,
    from: Register,
    to: Register,
    after_regs: Seq<u16>,
    after_mem: &LinearMemory,
)
    requires
        regs.len() == 8,
        memory_step(regs, mem, Instruction::Cpy(from, to), after_regs, after_mem),
        !mem.accepts(reg_of(regs, to)),
    ensures
        after_mem.bytes() == mem.bytes(),
        after_mem.read_only() == mem.read_only(),
        has_flag(reg_of(after_regs, Register::FLAGS), FAULT_FLAGS),
{
    lemma_fault_shows(regs);
    reveal_with_fuel(crate::memory::copies_from, 2);
}

/// A division whose remainder a linear memory rejects leaves every byte as
/// it was, stores the quotient and sets the halt and memory fault flags.
pub proof fn lemma_rejected_remainder(
    regs: Seq<u16>,
    mem: &LinearMemory,
    dst: Register,
    reg: Option<Register>,
    imm: Option<u16>,
    after_regs: Seq<u16>,
    after_mem: &LinearMemory,
)
    requires
        regs.len() == 8,
        memory_step(
            regs,
            mem,
            Instruction::Arith(dst, reg, imm, ArithmeticOp::Div),
            after_regs,
            after_mem,
        ),
        !mem.accepts(reg_of(regs, Register::SP)),
    ensures
        after_mem.bytes() == mem.bytes(),
        after_mem.read_only() == mem.read_only(),
        has_flag(reg_of(after_regs, Register::FLAGS), FAULT_FLAGS),
{
    let lhs = reg_of(regs, dst);
    let rhs = operand_value(regs, reg, imm);
    lemma_fault_shows(with_reg(regs, dst, arithmetic_result(ArithmeticOp::Div, lhs, rhs)));
}

} // verus!
