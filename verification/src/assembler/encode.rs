//! Encoding instructions as 16-bit words.
use crate::machine::{
    decoded, lemma_decoded_representable, ArithmeticOp, CompareOp, Instruction, Register,
};
use vstd::prelude::*;

verus! {

/// The bits of a second operand: the mode bit and the field, which holds
/// the number of the register or the low `mask` bits of the immediate.
pub open spec fn operand_bits(reg: Option<Register>, imm: Option<u16>, mask: u16) -> (u16, u16) {
    match (reg, imm) {
        (Some(r), _) => (1, r.code() & 0b111),
        (None, Some(value)) => (0, value & mask),
        (None, None) => (0, 0),
    }
}

/// One for `true`, zero for `false`.
pub open spec fn bit(flag: bool) -> u16 {
    if flag {
        1
    } else {
        0
    }
}

/// The word that encodes `inst`: the opcode in the low four bits, the fields
/// above it, each cut to the width of its field.
pub open spec fn encoded(inst: Instruction) -> u16 {
    match inst {
        Instruction::Noop => 0,
        Instruction::Mov(reg, imm) => {
            ((imm & 0b1_1111_1111) << 7) | ((reg.code() & 0b111) << 4) | 0b0001
        },
        Instruction::MovShift(reg, amount, left, imm) => {
            ((imm & 0b1_1111) << 11) | (bit(left) << 10) | (((amount as u16) & 0b111) << 7) | ((
            reg.code() & 0b111) << 4) | 0b0010
        },
        Instruction::Cpy(from, to) => {
            ((to.code() & 0b111) << 7) | ((from.code() & 0b111) << 4) | 0b1001
        },
        Instruction::Arith(dst, reg, imm, op) => {
            let (mode, rhs) = operand_bits(reg, imm, 0b11_1111);
            (rhs << 10) | (mode << 9) | (op.code() << 7) | ((dst.code() & 0b111) << 4) | 0b0011
        },
        Instruction::LdrStr(first, base, store, shift) => {
            memory_word(first, base, store, shift, 0b0100)
        },
        Instruction::LdbStb(first, base, store, shift) => {
            memory_word(first, base, store, shift, 0b1000)
        },
        Instruction::Jmp(reg, imm) => {
            let (mode, value) = operand_bits(reg, imm, 0b111_1111_1111);
            (value << 5) | (mode << 4) | 0b0110
        },
        Instruction::CondJmp(reg, imm) => {
            let (mode, value) = operand_bits(reg, imm, 0b111_1111_1111);
            (value << 5) | (mode << 4) | 0b0101
        },
        Instruction::Cmp(first, reg, imm, relation) => {
            let (mode, value) = operand_bits(reg, imm, 0b1_1111);
            (value << 11) | (mode << 10) | ((relation.code() & 0b111) << 7) | ((first.code()
                & 0b111) << 4) | 0b0111
        },
        Instruction::CallRet(is_ret, addr) => {
            ((addr & 0b111_1111_1111) << 5) | ((bit(is_ret) & 0b1) << 4) | 0b1011
        },
    }
}

/// The word of a load or store with the opcode `opcode`.
pub open spec fn memory_word(
    first: Register,
    base: Register,
    store: bool,
    shift: u8,
    opcode: u16,
) -> u16 {
    (((shift as u16) & 0b1_1111) << 11) | (bit(store) << 10) | ((base.code() & 0b111) << 7) | ((
    first.code() & 0b111) << 4) | opcode
}

fn arithmetic_code(op: ArithmeticOp) -> (code: u16)
    ensures
        code == op.code(),
{
    match op {
        ArithmeticOp::Add => 0b00,
        ArithmeticOp::Sub => 0b01,
        ArithmeticOp::Mul => 0b10,
        ArithmeticOp::Div => 0b11,
    }
}

fn compare_code(op: CompareOp) -> (code: u16)
    ensures
        code == op.code(),
{
    match op {
        CompareOp::Eq => 0,
        CompareOp::NotEq => 1,
        CompareOp::Less => 2,
        CompareOp::LessEq => 3,
        CompareOp::Greater => 4,
        CompareOp::GreaterEq => 5,
    }
}

fn operand_code(reg: &Option<Register>, imm: &Option<u16>, mask: u16) -> (bits: (u16, u16))
    ensures
        bits == operand_bits(*reg, *imm, mask),
{
    match (reg, imm) {
        (Some(r), _) => (0b1, (r.index() as u16) & 0b111),
        (None, Some(value)) => (0b0, *value & mask),
        (None, None) => (0b0, 0),
    }
}

/// Encodes one instruction. Bits of a field that its width has no room for
/// are dropped.
pub fn encode_instruction(inst: &Instruction) -> (word: u16)
    requires
        inst.well_formed(),
    ensures
        word == encoded(*inst),
{
    match inst {
        Instruction::Noop => 0,
        Instruction::Mov(reg, imm) => {
            let reg_code = (reg.index() as u16) & 0b111;
            let imm = *imm & 0b1_1111_1111;
            (imm << 7) | (reg_code << 4) | 0b0001
        },
        Instruction::MovShift(reg, amount, left, imm) => {
            let reg_code = (reg.index() as u16) & 0b111;
            let shift = (*amount as u16) & 0b111;
            let imm = *imm & 0b1_1111;
            let dir: u16 = if *left {
                0b1
            } else {
                0b0
            };
            (imm << 11) | (dir << 10) | (shift << 7) | (reg_code << 4) | 0b0010
        },
        Instruction::Cpy(from, to) => {
            let from_code = (from.index() as u16) & 0b111;
            let to_code = (to.index() as u16) & 0b111;
            (to_code << 7) | (from_code << 4) | 0b1001
        },
        Instruction::Arith(dst, reg, imm, op) => {
            let reg_code = (dst.index() as u16) & 0b111;
            let op_code = arithmetic_code(*op);
            let (mode, rhs) = operand_code(reg, imm, 0b11_1111);
            (rhs << 10) | (mode << 9) | (op_code << 7) | (reg_code << 4) | 0b0011
        },
        Instruction::LdrStr(first, base, store, shift) => {
            let first_code = (first.index() as u16) & 0b111;
            let base_code = (base.index() as u16) & 0b111;
            let shift = (*shift as u16) & 0b1_1111;
            let store_bit: u16 = if *store {
                0b1
            } else {
                0b0
            };
            (shift << 11) | (store_bit << 10) | (base_code << 7) | (first_code << 4) | 0b0100
        },
        Instruction::LdbStb(first, base, store, shift) => {
            let first_code = (first.index() as u16) & 0b111;
            let base_code = (base.index() as u16) & 0b111;
            let shift = (*shift as u16) & 0b1_1111;
            let store_bit: u16 = if *store {
                0b1
            } else {
                0b0
            };
            (shift << 11) | (store_bit << 10) | (base_code << 7) | (first_code << 4) | 0b1000
        },
        Instruction::Jmp(reg, imm) => {
            let (mode, value) = operand_code(reg, imm, 0b111_1111_1111);
            (value << 5) | (mode << 4) | 0b0110
        },
        Instruction::CondJmp(reg, imm) => {
            let (mode, value) = operand_code(reg, imm, 0b111_1111_1111);
            (value << 5) | (mode << 4) | 0b0101
        },
        Instruction::Cmp(first, reg, imm, relation) => {
            let first_code = (first.index() as u16) & 0b111;
            let relation_code = compare_code(*relation) & 0b111;
            let (mode, value) = operand_code(reg, imm, 0b1_1111);
            (value << 11) | (mode << 10) | (relation_code << 7) | (first_code << 4) | 0b0111
        },
        Instruction::CallRet(is_ret, addr) => {
            let imm = *addr & 0b111_1111_1111;
            let flag: u16 = if *is_ret {
                0b1
            } else {
                0b0
            };
            (imm << 5) | ((flag & 0b1) << 4) | 0b1011
        },
    }
}

/// Every instruction of `instructions` is well formed.
pub open spec fn all_well_formed(instructions: Seq<Instruction>) -> bool {
    forall|i: int| 0 <= i < instructions.len() ==> (#[trigger] instructions[i]).well_formed()
}

/// Encodes the instructions one by one.
pub fn encode_instructions(instructions: &[Instruction]) -> (words: Vec<u16>)
    requires
        all_well_formed(instructions@),
    ensures
        words@ == instructions@.map_values(|inst: Instruction| encoded(inst)),
{
    let mut words: Vec<u16> = Vec::new();
    let mut i: usize = 0;
    while i < instructions.len()
        invariant
            i <= instructions@.len(),
            all_well_formed(instructions@),
            words@ == instructions@.subrange(0, i as int).map_values(
                |inst: Instruction| encoded(inst),
            ),
        decreases instructions@.len() - i,
    {
        words.push(encode_instruction(&instructions[i]));
        i += 1;
        assert(words@ =~= instructions@.subrange(0, i as int).map_values(
            |inst: Instruction| encoded(inst),
        ));
    }
    assert(instructions@.subrange(0, i as int) =~= instructions@);
    words
}

/// The fields of a word laid out as nine bits, three bits and the opcode.
proof fn lemma_layout_9_3(high: u16, reg: u16, opcode: u16)
    by (bit_vector)
    requires
        high < 512,
        reg < 8,
        opcode < 16,
    ensures
        ({
            let word = ((high & 0b1_1111_1111) << 7) | ((reg & 0b111) << 4) | opcode;
            &&& word & 0b1111 == opcode
            &&& (word >> 4) & 0b111 == reg
            &&& (word >> 7) & 0b1_1111_1111 == high
        }),
{
}

/// The fields of a word laid out as five bits, one bit, twice three bits
/// and the opcode.
proof fn lemma_layout_5_1_3_3(high: u16, flag: u16, second: u16, first: u16, opcode: u16)
    by (bit_vector)
    requires
        high < 32,
        flag < 2,
        second < 8,
        first < 8,
        opcode < 16,
    ensures
        ({
            let word = (high << 11) | (flag << 10) | (second << 7) | (first << 4) | opcode;
            &&& word & 0b1111 == opcode
            &&& (word >> 4) & 0b111 == first
            &&& (word >> 7) & 0b111 == second
            &&& (word >> 10) & 0b1 == flag
            &&& (word >> 11) & 0b1_1111 == high
            &&& (word >> 11) == high
            &&& (word >> 11) & 0b111 == high & 0b111
        }),
        high & 0b1_1111 == high,
        second & 0b111 == second,
        first & 0b111 == first,
        high < 8 ==> high & 0b111 == high,
{
}

/// The fields of a word laid out as six bits, one bit, two bits, three bits
/// and the opcode.
proof fn lemma_layout_6_1_2_3(high: u16, flag: u16, op: u16, first: u16, opcode: u16)
    by (bit_vector)
    requires
        high < 64,
        flag < 2,
        op < 4,
        first < 8,
        opcode < 16,
    ensures
        ({
            let word = (high << 10) | (flag << 9) | (op << 7) | (first << 4) | opcode;
            &&& word & 0b1111 == opcode
            &&& (word >> 4) & 0b111 == first
            &&& (word >> 7) & 0b11 == op
            &&& (word >> 9) & 0b1 == flag
            &&& (word >> 10) == high
            &&& (word >> 10) & 0b111 == high & 0b111
        }),
        high & 0b11_1111 == high,
        first & 0b111 == first,
        high < 8 ==> high & 0b111 == high,
{
}

/// The fields of a word laid out as eleven bits, one bit and the opcode.
proof fn lemma_layout_11_1(high: u16, flag: u16, opcode: u16)
    by (bit_vector)
    requires
        high < 2048,
        flag < 2,
        opcode < 16,
    ensures
        ({
            let word = (high << 5) | (flag << 4) | opcode;
            &&& word & 0b1111 == opcode
            &&& (word >> 4) & 0b1 == flag
            &&& (word >> 5) == high
            &&& (word >> 5) & 0b111_1111_1111 == high
            &&& (word >> 5) & 0b111 == high & 0b111
        }),
        high & 0b111_1111_1111 == high,
        flag & 0b1 == flag,
        high < 8 ==> high & 0b111 == high,
{
}

proof fn lemma_decode_encode_moves(inst: Instruction)
    requires
        inst.representable(),
        inst is Noop || inst is Mov || inst is MovShift || inst is Cpy,
    ensures
        decoded(encoded(inst)) == Some(inst),
{
    match inst {
        Instruction::Noop => {
            assert(0u16 & 0b1111 == 0) by (bit_vector);
        },
        Instruction::Mov(reg, imm) => {
            lemma_layout_9_3(imm, reg.code(), 0b0001);
        },
        Instruction::MovShift(reg, amount, left, imm) => {
            lemma_layout_5_1_3_3(imm, bit(left), amount as u16, reg.code(), 0b0010);
        },
        Instruction::Cpy(from, to) => {
            let t = to.code();
            let f = from.code();
            lemma_layout_5_1_3_3(0, 0, t, f, 0b1001);
            assert(((t & 0b111) << 7) | ((f & 0b111) << 4) | 0b1001 == (0u16 << 11) | (0u16 << 10)
                | ((t & 0b111) << 7) | ((f & 0b111) << 4) | 0b1001u16) by (bit_vector);
        },
        _ => {},
    }
}

proof fn lemma_decode_encode_arith(inst: Instruction)
    requires
        inst.representable(),
        inst is Arith,
    ensures
        decoded(encoded(inst)) == Some(inst),
{
    match inst {
        Instruction::Arith(dst, reg, imm, op) => {
            let rhs = if reg is Some {
                reg->0.code()
            } else {
                imm->0
            };
            lemma_layout_6_1_2_3(rhs, bit(reg is Some), op.code(), dst.code(), 0b0011);
        },
        _ => {},
    }
}

proof fn lemma_decode_encode_memory(inst: Instruction)
    requires
        inst.representable(),
        inst is LdrStr || inst is LdbStb,
    ensures
        decoded(encoded(inst)) == Some(inst),
{
    match inst {
        Instruction::LdrStr(first, base, store, shift) => {
            lemma_layout_5_1_3_3(shift as u16, bit(store), base.code(), first.code(), 0b0100);
        },
        Instruction::LdbStb(first, base, store, shift) => {
            lemma_layout_5_1_3_3(shift as u16, bit(store), base.code(), first.code(), 0b1000);
        },
        _ => {},
    }
}

proof fn lemma_decode_encode_jumps(inst: Instruction)
    requires
        inst.representable(),
        inst is Jmp || inst is CondJmp || inst is CallRet,
    ensures
        decoded(encoded(inst)) == Some(inst),
{
    match inst {
        Instruction::Jmp(reg, imm) => {
            let value = if reg is Some {
                reg->0.code()
            } else {
                imm->0
            };
            lemma_layout_11_1(value, bit(reg is Some), 0b0110);
        },
        Instruction::CondJmp(reg, imm) => {
            let value = if reg is Some {
                reg->0.code()
            } else {
                imm->0
            };
            lemma_layout_11_1(value, bit(reg is Some), 0b0101);
        },
        Instruction::CallRet(is_ret, addr) => {
            lemma_layout_11_1(addr, bit(is_ret), 0b1011);
        },
        _ => {},
    }
}

proof fn lemma_decode_encode_compare(inst: Instruction)
    requires
        inst.representable(),
        inst is Cmp,
    ensures
        decoded(encoded(inst)) == Some(inst),
{
    match inst {
        Instruction::Cmp(first, reg, imm, relation) => {
            let value = if reg is Some {
                reg->0.code()
            } else {
                imm->0
            };
            lemma_layout_5_1_3_3(value, bit(reg is Some), relation.code(), first.code(), 0b0111);
        },
        _ => {},
    }
}

/// Decoding undoes encoding: an instruction whose fields fit their widths
/// is what its word decodes to.
pub proof fn lemma_decode_encode(inst: Instruction)
    requires
        inst.representable(),
    ensures
        decoded(encoded(inst)) == Some(inst),
{
    match inst {
        Instruction::Noop | Instruction::Mov(..) | Instruction::MovShift(..) | Instruction::Cpy(
            ..,
        ) => lemma_decode_encode_moves(inst),
        Instruction::Arith(..) => lemma_decode_encode_arith(inst),
        Instruction::LdrStr(..) | Instruction::LdbStb(..) => lemma_decode_encode_memory(inst),
        Instruction::Jmp(..) | Instruction::CondJmp(..) | Instruction::CallRet(
            ..,
        ) => lemma_decode_encode_jumps(inst),
        Instruction::Cmp(..) => lemma_decode_encode_compare(inst),
    }
}

/// Decoding and encoding again changes nothing more: the word that a
/// decoded instruction encodes to decodes to the same instruction, so
/// encoding what a word decodes to is idempotent.
pub proof fn lemma_reencode(word: u16)
    requires
        decoded(word) is Some,
    ensures
        decoded(encoded(decoded(word)->0)) == decoded(word),
        encoded(decoded(encoded(decoded(word)->0))->0) == encoded(decoded(word)->0),
{
    lemma_decoded_representable(word);
    lemma_decode_encode(decoded(word)->0);
}

} // verus!
