//! The textual form of instructions.
use crate::machine::{ArithmeticOp, CompareOp, Instruction, Register};
use crate::text::{decimal, push_decimal};
use vstd::prelude::*;
use vstd::string::*;

verus! {

/// The mnemonic of an arithmetic operation.
pub open spec fn arithmetic_mnemonic(op: ArithmeticOp) -> Seq<char> {
    match op {
        ArithmeticOp::Add => "ADD"@,
        ArithmeticOp::Sub => "SUB"@,
        ArithmeticOp::Mul => "MUL"@,
        ArithmeticOp::Div => "DIV"@,
    }
}

/// The mnemonic of a comparison.
pub open spec fn compare_mnemonic(op: CompareOp) -> Seq<char> {
    match op {
        CompareOp::Eq => "EQ"@,
        CompareOp::NotEq => "NEQ"@,
        CompareOp::Less => "LT"@,
        CompareOp::LessEq => "LTE"@,
        CompareOp::Greater => "GT"@,
        CompareOp::GreaterEq => "GTE"@,
    }
}

/// The text of a second operand: the name of the register, or `#` and the
/// immediate; `undefined` where it is neither of the two.
pub open spec fn operand_text(reg: Option<Register>, imm: Option<u16>) -> Seq<char> {
    match (reg, imm) {
        (Some(r), None) => r.name(),
        (None, Some(value)) => "#"@ + decimal(value as nat),
        _ => "undefined"@,
    }
}

/// The text of the address of a load or store: the register alone where the
/// shift is zero, else `[reg #shift]`.
pub open spec fn address_text(base: Register, shift: u8) -> Seq<char> {
    if shift == 0 {
        base.name()
    } else {
        "["@ + base.name() + " #"@ + decimal(shift as nat) + "]"@
    }
}

/// The line of assembly that stands for `inst`.
pub open spec fn instruction_text(inst: Instruction) -> Seq<char> {
    match inst {
        Instruction::Noop => "NOOP"@,
        Instruction::Mov(reg, imm) => "MOV "@ + reg.name() + ", #"@ + decimal(imm as nat),
        Instruction::MovShift(reg, amount, left, imm) => (if left {
            "MSL "@
        } else {
            "MSR "@
        }) + reg.name() + ", [#"@ + decimal(imm as nat) + " #"@ + decimal(amount as nat) + "]"@,
        Instruction::Cpy(from, to) => "CPY "@ + from.name() + ", "@ + to.name(),
        Instruction::Arith(dst, reg, imm, op) => arithmetic_mnemonic(op) + " "@ + dst.name()
            + ", "@ + operand_text(reg, imm),
        Instruction::LdrStr(first, base, store, shift) => (if store {
            "STR "@
        } else {
            "LDR "@
        }) + first.name() + ", "@ + address_text(base, shift),
        Instruction::LdbStb(first, base, store, shift) => (if store {
            "STB "@
        } else {
            "LDB "@
        }) + first.name() + ", "@ + address_text(base, shift),
        Instruction::Jmp(reg, imm) => "JMP "@ + operand_text(reg, imm),
        Instruction::CondJmp(reg, imm) => "CJP "@ + operand_text(reg, imm),
        Instruction::Cmp(first, reg, imm, op) => compare_mnemonic(op) + " "@ + first.name()
            + ", "@ + operand_text(reg, imm),
        Instruction::CallRet(is_ret, addr) => if is_ret {
            "RET"@
        } else {
            "CALL #"@ + decimal(addr as nat)
        },
    }
}

fn push_register(out: &mut String, reg: Register)
    ensures
        final(out)@ == old(out)@ + reg.name(),
{
    let name = reg.to_string();
    out.append(name.as_str());
}

fn push_operand(out: &mut String, reg: &Option<Register>, imm: &Option<u16>)
    ensures
        final(out)@ == old(out)@ + operand_text(*reg, *imm),
{
    match (reg, imm) {
        (Some(r), None) => {
            push_register(out, *r);
        },
        (None, Some(value)) => {
            out.append("#");
            push_decimal(out, *value as u64);
            assert(out@ =~= old(out)@ + operand_text(*reg, *imm));
        },
        _ => {
            out.append("undefined");
        },
    }
}

fn push_address(out: &mut String, base: Register, shift: u8)
    ensures
        final(out)@ == old(out)@ + address_text(base, shift),
{
    if shift == 0 {
        push_register(out, base);
    } else {
        out.append("[");
        push_register(out, base);
        out.append(" #");
        push_decimal(out, shift as u64);
        out.append("]");
        assert(out@ =~= old(out)@ + address_text(base, shift));
    }
}

impl Instruction {
    /// The line of assembly that stands for the instruction.
    pub fn to_string(&self) -> (text: String)
        ensures
            text@ == instruction_text(*self),
    {
        let mut out = String::new();
        match self {
            Instruction::Noop => {
                out.append("NOOP");
            },
            Instruction::Mov(reg, imm) => {
                out.append("MOV ");
                push_register(&mut out, *reg);
                out.append(", #");
                push_decimal(&mut out, *imm as u64);
            },
            Instruction::MovShift(reg, amount, left, imm) => {
                if *left {
                    out.append("MSL ");
                } else {
                    out.append("MSR ");
                }
                push_register(&mut out, *reg);
                out.append(", [#");
                push_decimal(&mut out, *imm as u64);
                out.append(" #");
                push_decimal(&mut out, *amount as u64);
                out.append("]");
            },
            Instruction::Cpy(from, to) => {
                out.append("CPY ");
                push_register(&mut out, *from);
                out.append(", ");
                push_register(&mut out, *to);
            },
            Instruction::Arith(dst, reg, imm, op) => {
                match op {
                    ArithmeticOp::Add => out.append("ADD"),
                    ArithmeticOp::Sub => out.append("SUB"),
                    ArithmeticOp::Mul => out.append("MUL"),
                    ArithmeticOp::Div => out.append("DIV"),
                }
                out.append(" ");
                push_register(&mut out, *dst);
                out.append(", ");
                push_operand(&mut out, reg, imm);
            },
            Instruction::LdrStr(first, base, store, shift) => {
                if *store {
                    out.append("STR ");
                } else {
                    out.append("LDR ");
                }
                push_register(&mut out, *first);
                out.append(", ");
                push_address(&mut out, *base, *shift);
            },
            Instruction::LdbStb(first, base, store, shift) => {
                if *store {
                    out.append("STB ");
                } else {
                    out.append("LDB ");
                }
                push_register(&mut out, *first);
                out.append(", ");
                push_address(&mut out, *base, *shift);
            },
            Instruction::Jmp(reg, imm) => {
                out.append("JMP ");
                push_operand(&mut out, reg, imm);
            },
            Instruction::CondJmp(reg, imm) => {
                out.append("CJP ");
                push_operand(&mut out, reg, imm);
            },
            Instruction::Cmp(first, reg, imm, op) => {
                match op {
                    CompareOp::Eq => out.append("EQ"),
                    CompareOp::NotEq => out.append("NEQ"),
                    CompareOp::Less => out.append("LT"),
                    CompareOp::LessEq => out.append("LTE"),
                    CompareOp::Greater => out.append("GT"),
                    CompareOp::GreaterEq => out.append("GTE"),
                }
                out.append(" ");
                push_register(&mut out, *first);
                out.append(", ");
                push_operand(&mut out, reg, imm);
            },
            Instruction::CallRet(is_ret, addr) => {
                if *is_ret {
                    out.append("RET");
                } else {
                    out.append("CALL #");
                    push_decimal(&mut out, *addr as u64);
                }
            },
        }
        assert(out@ =~= instruction_text(*self));
        out
    }
}

} // verus!
