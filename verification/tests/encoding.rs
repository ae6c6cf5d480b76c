use rust16vm::assembler::encode_instruction;
use rust16vm::machine::{ArithmeticOp, CompareOp, Instruction, Register};

#[test]
fn test_encode_instruction() {
    let mov = Instruction::Mov(Register::C, 10);
    let inst = encode_instruction(&mov);
    assert_eq!(0b0000010100100001, inst);

    let msl = Instruction::MovShift(Register::B, 4, true, 4);
    let inst = encode_instruction(&msl);
    assert_eq!(0b0010011000010010, inst);

    let msr = Instruction::MovShift(Register::B, 4, false, 4);
    let inst = encode_instruction(&msr);
    assert_eq!(0b0010001000010010, inst);

    let add = Instruction::Arith(Register::B, Some(Register::C), None, ArithmeticOp::Add);
    let inst = encode_instruction(&add);
    assert_eq!(0b0000101000010011, inst);

    let add_imm = Instruction::Arith(Register::C, None, Some(8), ArithmeticOp::Div);
    let inst = encode_instruction(&add_imm);
    assert_eq!(0b0010000110100011, inst);

    let str = Instruction::LdrStr(Register::B, Register::SP, true, 0);
    let inst = encode_instruction(&str);
    assert_eq!(0b0000011000010100, inst);

    let ldr = Instruction::LdrStr(Register::B, Register::A, false, 10);
    let inst = encode_instruction(&ldr);
    assert_eq!(0b0101000000010100, inst);

    let call = Instruction::CallRet(false, 10);
    let inst = encode_instruction(&call);
    assert_eq!(0b0000000101001011, inst);

    let ret = Instruction::CallRet(true, 0);
    let inst = encode_instruction(&ret);
    assert_eq!(0b0000000000011011, inst);
}

#[test]
fn decode_undoes_encode() {
    let all = vec![
        Instruction::Noop,
        Instruction::Mov(Register::FLAGS, 511),
        Instruction::Mov(Register::A, 0),
        Instruction::MovShift(Register::B, 7, true, 31),
        Instruction::MovShift(Register::C, 0, false, 0),
        Instruction::Cpy(Register::SP, Register::BP),
        Instruction::Arith(Register::A, Some(Register::FLAGS), None, ArithmeticOp::Add),
        Instruction::Arith(Register::M, None, Some(63), ArithmeticOp::Sub),
        Instruction::Arith(Register::M, None, Some(0), ArithmeticOp::Mul),
        Instruction::Arith(Register::PC, Some(Register::A), None, ArithmeticOp::Div),
        Instruction::LdrStr(Register::A, Register::B, true, 31),
        Instruction::LdrStr(Register::A, Register::B, false, 0),
        Instruction::LdbStb(Register::FLAGS, Register::SP, true, 1),
        Instruction::LdbStb(Register::C, Register::C, false, 30),
        Instruction::Jmp(Some(Register::BP), None),
        Instruction::Jmp(None, Some(2047)),
        Instruction::CondJmp(Some(Register::M), None),
        Instruction::CondJmp(None, Some(0)),
        Instruction::Cmp(Register::A, Some(Register::B), None, CompareOp::Eq),
        Instruction::Cmp(Register::A, None, Some(31), CompareOp::NotEq),
        Instruction::Cmp(Register::SP, None, Some(1), CompareOp::Less),
        Instruction::Cmp(Register::SP, Some(Register::FLAGS), None, CompareOp::LessEq),
        Instruction::Cmp(Register::BP, None, Some(0), CompareOp::Greater),
        Instruction::Cmp(Register::PC, None, Some(17), CompareOp::GreaterEq),
        Instruction::CallRet(false, 2047),
        Instruction::CallRet(true, 0),
        Instruction::CallRet(true, 5),
    ];
    for inst in all {
        let word = encode_instruction(&inst);
        assert_eq!(Instruction::try_from(word), Ok(inst));
    }
}

#[test]
fn encoding_a_decoded_word_is_idempotent() {
    for word in 0..=u16::MAX {
        if let Ok(inst) = Instruction::try_from(word) {
            let again = encode_instruction(&inst);
            assert_eq!(Instruction::try_from(again), Ok(inst));
            let (third, _) = (encode_instruction(&Instruction::try_from(again).unwrap()), ());
            assert_eq!(third, again);
        }
    }
}

#[test]
fn decoding_is_total() {
    let mut refused = 0;
    for word in 0..=u16::MAX {
        match Instruction::try_from(word) {
            Ok(_) => {}
            Err(text) => {
                refused += 1;
                let opcode = word & 0b1111;
                if opcode == 0b0111 {
                    assert_eq!(text, format!("invalid compare opcode: {}", (word >> 7) & 0b111));
                } else {
                    assert!(matches!(opcode, 0b1010 | 0b1100 | 0b1101 | 0b1110 | 0b1111));
                    assert_eq!(text, format!("unexpected instruction: {:#06x}", word));
                }
            }
        }
    }
    // five opcodes are unknown, and a quarter of the comparisons have no meaning
    assert_eq!(refused, 5 * 4096 + 1024);
}

#[test]
fn excess_bits_are_dropped() {
    assert_eq!(
        encode_instruction(&Instruction::Mov(Register::A, 0xFFFF)),
        encode_instruction(&Instruction::Mov(Register::A, 511))
    );
    assert_eq!(
        encode_instruction(&Instruction::CallRet(false, 2048 + 5)),
        encode_instruction(&Instruction::CallRet(false, 5))
    );
    assert_eq!(
        encode_instruction(&Instruction::LdrStr(Register::A, Register::B, true, 33)),
        encode_instruction(&Instruction::LdrStr(Register::A, Register::B, true, 1))
    );
    assert_eq!(
        encode_instruction(&Instruction::Arith(Register::A, None, Some(64 + 3), ArithmeticOp::Add)),
        encode_instruction(&Instruction::Arith(Register::A, None, Some(3), ArithmeticOp::Add))
    );
}

#[test]
fn decoded_fields() {
    assert_eq!(Instruction::try_from(0u16), Ok(Instruction::Noop));
    assert_eq!(Instruction::try_from(0xABC0u16), Ok(Instruction::Noop));
    assert_eq!(
        Instruction::try_from(0b00000001010_1_0101u16),
        Ok(Instruction::CondJmp(Some(Register::C), None))
    );
    assert_eq!(
        Instruction::try_from(0b00000001010_0_0101u16),
        Ok(Instruction::CondJmp(None, Some(10)))
    );
    assert_eq!(
        Instruction::try_from(0b11111_0_101_011_0111u16),
        Ok(Instruction::Cmp(Register::M, None, Some(31), CompareOp::GreaterEq))
    );
    assert_eq!(
        Instruction::try_from(0b000_010_011_1001u16),
        Ok(Instruction::Cpy(Register::M, Register::C))
    );
    assert_eq!(Register::try_from(4usize), Ok(Register::SP));
    assert_eq!(Register::try_from(8usize), Err(String::from("invalid register: 8")));
    assert_eq!(CompareOp::try_from(5usize), Ok(CompareOp::GreaterEq));
    assert_eq!(CompareOp::try_from(1234usize), Err(String::from("invalid compare opcode: 1234")));
}
