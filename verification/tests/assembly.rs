use rust16vm::assembler::{
    assemble, encode_instructions, parse_and_locate, parse_assembly, parse_assembly_line,
    parse_words, program_image, program_text, resolve_and_locate, resolve_and_parse_assembly,
    rv16asm, words_of_image, AsmError, Contents, Extension,
};
use rust16vm::machine::{ArithmeticOp, CompareOp, Instruction, Register};
use std::collections::HashMap;

#[test]
fn test_assembly_line() {
    let empty = HashMap::new();

    let input = "MOV A, #10";
    let inst = parse_assembly_line(input, &empty).unwrap();
    assert_eq!(inst, Instruction::Mov(Register::A, 10));

    let input = "MSL A, [#11 #4]";
    let inst = parse_assembly_line(input, &empty).unwrap();
    assert_eq!(inst, Instruction::MovShift(Register::A, 4, true, 11));

    let input = "MSR B, [#15 #2]";
    let inst = parse_assembly_line(input, &empty).unwrap();
    assert_eq!(inst, Instruction::MovShift(Register::B, 2, false, 15));

    let input = "ADD A, #10";
    let inst = parse_assembly_line(input, &empty).unwrap();
    assert_eq!(
        inst,
        Instruction::Arith(Register::A, None, Some(10), ArithmeticOp::Add)
    );

    let input = "SUB B, SP";
    let inst = parse_assembly_line(input, &empty).unwrap();
    assert_eq!(
        inst,
        Instruction::Arith(Register::B, Some(Register::SP), None, ArithmeticOp::Sub)
    );

    let input = "MUL C, #5";
    let inst = parse_assembly_line(input, &empty).unwrap();
    assert_eq!(
        inst,
        Instruction::Arith(Register::C, None, Some(5), ArithmeticOp::Mul)
    );

    let input = "MUL A, B";
    let inst = parse_assembly_line(input, &empty).unwrap();
    assert_eq!(
        inst,
        Instruction::Arith(Register::A, Some(Register::B), None, ArithmeticOp::Mul)
    );

    let input = "DIV M, #16";
    let inst = parse_assembly_line(input, &empty).unwrap();
    assert_eq!(
        inst,
        Instruction::Arith(Register::M, None, Some(16), ArithmeticOp::Div)
    );

    let input = "DIV BP, A";
    let inst = parse_assembly_line(input, &empty).unwrap();
    assert_eq!(
        inst,
        Instruction::Arith(Register::BP, Some(Register::A), None, ArithmeticOp::Div)
    );

    let input = "STR SP, A";
    let inst = parse_assembly_line(input, &empty).unwrap();
    assert_eq!(
        inst,
        Instruction::LdrStr(Register::SP, Register::A, true, 0)
    );

    let input = "LDR C, [SP #4]";
    let inst = parse_assembly_line(input, &empty).unwrap();
    assert_eq!(
        inst,
        Instruction::LdrStr(Register::C, Register::SP, false, 4)
    );

    let input = "JMP #10";
    let inst = parse_assembly_line(input, &empty).unwrap();
    assert_eq!(inst, Instruction::Jmp(None, Some(10)));

    let input = "JMP A";
    let inst = parse_assembly_line(input, &empty).unwrap();
    assert_eq!(inst, Instruction::Jmp(Some(Register::A), None));

    let input = "CJP #10";
    let inst = parse_assembly_line(input, &empty).unwrap();
    assert_eq!(inst, Instruction::CondJmp(None, Some(10)));

    let input = "EQ A, B";
    let inst = parse_assembly_line(input, &empty).unwrap();
    assert_eq!(
        inst,
        Instruction::Cmp(Register::A, Some(Register::B), None, CompareOp::Eq)
    );

    let input = "LT A, #10";
    let inst = parse_assembly_line(input, &empty).unwrap();
    assert_eq!(
        inst,
        Instruction::Cmp(Register::A, None, Some(10), CompareOp::Less)
    );

    let input = "ADD FLAGS, #1";
    let inst = parse_assembly_line(input, &empty).unwrap();
    assert_eq!(
        inst,
        Instruction::Arith(Register::FLAGS, None, Some(1), ArithmeticOp::Add)
    );

    let input = "CALL #1024";
    let inst = parse_assembly_line(input, &empty).unwrap();
    assert_eq!(inst, Instruction::CallRet(false, 1024));

    let input = "RET";
    let inst = parse_assembly_line(input, &empty).unwrap();
    assert_eq!(inst, Instruction::CallRet(true, 0));
}

fn line(text: &str) -> Result<Instruction, AsmError> {
    parse_assembly_line(text, &HashMap::new())
}

fn fails_with(text: &str, expected: &str) {
    match line(text) {
        Ok(inst) => panic!("{} parsed as {:?}", text, inst),
        Err(error) => assert_eq!(format!("{:?}", error), expected, "for {}", text),
    }
}

#[test]
fn mnemonics_are_read_in_any_case() {
    assert_eq!(line("mov a, #1").err().map(|e| format!("{:?}", e)), Some(String::from("InvalidRegister")));
    assert_eq!(line("mov A, #1").unwrap(), Instruction::Mov(Register::A, 1));
    assert_eq!(line("Gte M, #9").unwrap(), Instruction::Cmp(Register::M, None, Some(9), CompareOp::GreaterEq));
    assert_eq!(line("ret").unwrap(), Instruction::CallRet(true, 0));
    assert_eq!(line("noop").unwrap(), Instruction::Noop);
}

#[test]
fn every_mnemonic_has_its_instruction() {
    assert_eq!(line("NOOP").unwrap(), Instruction::Noop);
    assert_eq!(line("CPY A, B").unwrap(), Instruction::Cpy(Register::A, Register::B));
    assert_eq!(line("LDB C, [SP #31]").unwrap(), Instruction::LdbStb(Register::C, Register::SP, false, 31));
    assert_eq!(line("STB C, PC").unwrap(), Instruction::LdbStb(Register::C, Register::PC, true, 0));
    assert_eq!(line("NEQ A, BP").unwrap(), Instruction::Cmp(Register::A, Some(Register::BP), None, CompareOp::NotEq));
    assert_eq!(line("LTE A, #3").unwrap(), Instruction::Cmp(Register::A, None, Some(3), CompareOp::LessEq));
    assert_eq!(line("GT A, #3").unwrap(), Instruction::Cmp(Register::A, None, Some(3), CompareOp::Greater));
    assert_eq!(line("CJP FLAGS").unwrap(), Instruction::CondJmp(Some(Register::FLAGS), None));
    assert_eq!(line("RET whatever follows").unwrap(), Instruction::CallRet(true, 0));
}

#[test]
fn immediates_are_decimal_or_hexadecimal() {
    assert_eq!(line("MOV A, #0x1f").unwrap(), Instruction::Mov(Register::A, 31));
    assert_eq!(line("MOV A, #0xFFFF").unwrap(), Instruction::Mov(Register::A, 65535));
    assert_eq!(line("MOV A, #65535").unwrap(), Instruction::Mov(Register::A, 65535));
    assert_eq!(line("MOV A, #+12").unwrap(), Instruction::Mov(Register::A, 12));
    assert_eq!(line("MOV A, #0012").unwrap(), Instruction::Mov(Register::A, 12));
    assert_eq!(line("MOV A, #0x+a").unwrap(), Instruction::Mov(Register::A, 10));
    fails_with("MOV A, #65536", "InvalidImmediate");
    fails_with("MOV A, #0x10000", "InvalidImmediate");
    fails_with("MOV A, #", "InvalidImmediate");
    fails_with("MOV A, #+", "InvalidImmediate");
    fails_with("MOV A, #-1", "InvalidImmediate");
    fails_with("MOV A, #0x", "InvalidImmediate");
    fails_with("MOV A, #1f", "InvalidImmediate");
    fails_with("MOV A, #0X1f", "InvalidImmediate");
    fails_with("MOV A, 12", "InvalidImmediate");
    fails_with("MOV A, #1_0", "InvalidImmediate");
}

#[test]
fn each_error_has_its_input() {
    fails_with("", "InvalidFormat");
    fails_with("   \t ", "InvalidFormat");
    fails_with("PUSH A", "InvalidInstruction");
    fails_with("MOV A", "InvalidInstruction");
    fails_with("MOV A, #1 #2", "InvalidInstruction");
    fails_with("MOV X, #1", "InvalidRegister");
    fails_with("MOV a, #1", "InvalidRegister");
    fails_with("ADD A, Q", "InvalidRegister");
    fails_with("ADD A, #70000", "InvalidImmediate");
    fails_with("ADD A", "InvalidInstruction");
    fails_with("ADD", "InvalidInstruction");
    fails_with("ADD A, B, C", "InvalidInstruction");
    fails_with("MSL A, [#1 #256]", "InvalidInstruction");
    fails_with("MSL A, [#1", "InvalidInstruction");
    fails_with("LDR A", "InvalidInstruction");
    fails_with("LDR A, [B", "InvalidInstruction");
    fails_with("LDR A, [B]", "InvalidRegister");
    fails_with("LDR A, [B #256]", "InvalidImmediate");
    fails_with("LDR A, [B 4]", "InvalidImmediate");
    fails_with("LDR A, [B #1] C D", "InvalidInstruction");
    fails_with("JMP", "InvalidInstruction");
    fails_with("JMP #1 #2", "InvalidInstruction");
    fails_with("JMP #x", "InvalidImmediate");
    fails_with("JMP somewhere", "UnresolvedLabel(\"somewhere\")");
    fails_with("CALL A", "UnresolvedLabel(\"A\")");
    fails_with("CALL", "InvalidInstruction");
    fails_with("EQ A", "InvalidInstruction");
    fails_with("CPY A, B, C", "InvalidInstruction");
    fails_with("CPY A, b", "InvalidRegister");
}

#[test]
fn operands_shed_commas_and_brackets() {
    assert_eq!(line("MOV A,, #1").unwrap(), Instruction::Mov(Register::A, 1));
    assert_eq!(line("MSL A, [[#1 #2]]").unwrap(), Instruction::MovShift(Register::A, 2, true, 1));
    assert_eq!(line("LDR A, [[B #2]]").unwrap(), Instruction::LdrStr(Register::A, Register::B, false, 2));
    assert_eq!(line("LDR A, B ignored").unwrap(), Instruction::LdrStr(Register::A, Register::B, false, 0));
    assert_eq!(line("  MOV\tA,\u{2003}#1  ").unwrap(), Instruction::Mov(Register::A, 1));
}

#[test]
fn labels_are_looked_up_in_the_table() {
    let mut labels = HashMap::new();
    labels.insert(String::from("loop"), 6u16);
    labels.insert(String::from("A"), 8u16);
    assert_eq!(parse_assembly_line("JMP loop", &labels).unwrap(), Instruction::Jmp(None, Some(6)));
    assert_eq!(parse_assembly_line("CJP loop", &labels).unwrap(), Instruction::CondJmp(None, Some(6)));
    assert_eq!(parse_assembly_line("CALL loop", &labels).unwrap(), Instruction::CallRet(false, 6));
    // a register name wins over a label in a jump, and a call has no registers
    assert_eq!(parse_assembly_line("JMP A", &labels).unwrap(), Instruction::Jmp(Some(Register::A), None));
    assert_eq!(parse_assembly_line("CALL A", &labels).unwrap(), Instruction::CallRet(false, 8));
    match parse_assembly_line("JMP Loop", &labels) {
        Err(AsmError::UnresolvedLabel(name)) => assert_eq!(name, "Loop"),
        other => panic!("{:?}", other),
    }
}

#[test]
fn words_are_parsed_from_an_upper_case_mnemonic() {
    let args = vec![vec!['A', ','], vec!['#', '7']];
    assert_eq!(parse_words("MOV", &args, None).unwrap(), Instruction::Mov(Register::A, 7));
    assert!(matches!(parse_words("mov", &args, None), Err(AsmError::InvalidInstruction)));
    let target = vec![vec!['e', 'n', 'd']];
    assert_eq!(parse_words("JMP", &target, Some(12)).unwrap(), Instruction::Jmp(None, Some(12)));
    match parse_words("CALL", &target, None) {
        Err(AsmError::UnresolvedLabel(name)) => assert_eq!(name, "end"),
        other => panic!("{:?}", other),
    }
}

#[test]
fn register_names_are_parsed() {
    assert_eq!("FLAGS".parse::<Register>().unwrap(), Register::FLAGS);
    assert_eq!("SP".parse::<Register>().unwrap(), Register::SP);
    assert!(matches!("sp".parse::<Register>(), Err(AsmError::InvalidRegister)));
    assert!(matches!(Register::from_name(""), Err(AsmError::InvalidRegister)));
    assert_eq!(Register::from_name("BP").unwrap(), Register::BP);
}

#[test]
fn program_without_labels() {
    let code = "; a comment\n\nMOV A, #1\n   ADD A, #2   \r\n;RET\nRET\n";
    let program = parse_assembly(code).unwrap();
    assert_eq!(
        program,
        vec![
            Instruction::Mov(Register::A, 1),
            Instruction::Arith(Register::A, None, Some(2), ArithmeticOp::Add),
            Instruction::CallRet(true, 0),
        ]
    );
    assert!(parse_assembly("").unwrap().is_empty());
    // a label line is no instruction where labels are not resolved
    assert!(matches!(parse_assembly("start:\nRET"), Err(AsmError::InvalidInstruction)));
    let refused = parse_and_locate("RET\n\nMOV A\nBAD").unwrap_err();
    assert_eq!(refused.line, 3);
    assert!(matches!(refused.error, AsmError::InvalidInstruction));
}

#[test]
fn labels_resolve_backwards_and_forwards() {
    let code = "\
start:
    MOV A, #0
loop:
    EQ A, #10
    CJP end
    ADD A, #1
    JMP loop
end:
    ADD FLAGS, #1
    CALL start
";
    let program = resolve_and_parse_assembly(code).unwrap();
    assert_eq!(
        program,
        vec![
            Instruction::Mov(Register::A, 0),
            Instruction::Cmp(Register::A, None, Some(10), CompareOp::Eq),
            Instruction::CondJmp(None, Some(10)),
            Instruction::Arith(Register::A, None, Some(1), ArithmeticOp::Add),
            Instruction::Jmp(None, Some(2)),
            Instruction::Arith(Register::FLAGS, None, Some(1), ArithmeticOp::Add),
            Instruction::CallRet(false, 0),
        ]
    );
    assert_eq!(
        encode_instructions(&program),
        vec![1, 20487, 325, 1027, 70, 1139, 11]
    );
}

#[test]
fn a_label_declared_twice() {
    // before the second declaration the first one counts, after it the second;
    // before the first declaration the first one counts
    let code = "JMP x\nx:\nJMP x\nRET\nx:\nJMP x\n";
    let program = resolve_and_parse_assembly(code).unwrap();
    assert_eq!(
        program,
        vec![
            Instruction::Jmp(None, Some(2)),
            Instruction::Jmp(None, Some(2)),
            Instruction::CallRet(true, 0),
            Instruction::Jmp(None, Some(6)),
        ]
    );
}

#[test]
fn undefined_label_is_reported_at_the_end() {
    let refused = resolve_and_locate("RET\nJMP nowhere\nCALL neither\nRET\n").unwrap_err();
    assert_eq!(refused.line, 2);
    match refused.error {
        AsmError::UnresolvedLabel(name) => assert_eq!(name, "nowhere"),
        other => panic!("{:?}", other),
    }
    // another fault further down comes first
    let refused = resolve_and_locate("JMP nowhere\nMOV Q, #1\n").unwrap_err();
    assert_eq!(refused.line, 2);
    assert!(matches!(refused.error, AsmError::InvalidRegister));
    assert!(matches!(
        resolve_and_parse_assembly("JMP nowhere"),
        Err(AsmError::UnresolvedLabel(_))
    ));
}

#[test]
fn label_lines_and_comments() {
    let code = "  ; comment\n\n  first::  \nJMP first\nsecond label:\nJMP second\n";
    let refused = resolve_and_locate(code).unwrap_err();
    assert_eq!(refused.line, 6);
    let program = resolve_and_parse_assembly("a:\nRET\nb:\nc:\nJMP c\nJMP b\nJMP a").unwrap();
    assert_eq!(
        program,
        vec![
            Instruction::CallRet(true, 0),
            Instruction::Jmp(None, Some(2)),
            Instruction::Jmp(None, Some(2)),
            Instruction::Jmp(None, Some(0)),
        ]
    );
}

#[test]
fn instructions_as_text() {
    assert_eq!(Instruction::Noop.to_string(), "NOOP");
    assert_eq!(Instruction::Mov(Register::A, 511).to_string(), "MOV A, #511");
    assert_eq!(Instruction::MovShift(Register::B, 4, true, 11).to_string(), "MSL B, [#11 #4]");
    assert_eq!(Instruction::MovShift(Register::B, 2, false, 0).to_string(), "MSR B, [#0 #2]");
    assert_eq!(Instruction::Cpy(Register::SP, Register::BP).to_string(), "CPY SP, BP");
    assert_eq!(
        Instruction::Arith(Register::FLAGS, None, Some(1), ArithmeticOp::Add).to_string(),
        "ADD FLAGS, #1"
    );
    assert_eq!(
        Instruction::Arith(Register::A, Some(Register::M), None, ArithmeticOp::Div).to_string(),
        "DIV A, M"
    );
    assert_eq!(
        Instruction::Arith(Register::A, None, None, ArithmeticOp::Sub).to_string(),
        "SUB A, undefined"
    );
    assert_eq!(Instruction::LdrStr(Register::C, Register::SP, false, 4).to_string(), "LDR C, [SP #4]");
    assert_eq!(Instruction::LdrStr(Register::C, Register::SP, true, 0).to_string(), "STR C, SP");
    assert_eq!(Instruction::LdbStb(Register::C, Register::PC, true, 31).to_string(), "STB C, [PC #31]");
    assert_eq!(Instruction::LdbStb(Register::C, Register::PC, false, 0).to_string(), "LDB C, PC");
    assert_eq!(Instruction::Jmp(None, Some(2047)).to_string(), "JMP #2047");
    assert_eq!(Instruction::CondJmp(Some(Register::A), None).to_string(), "CJP A");
    assert_eq!(
        Instruction::Cmp(Register::A, None, Some(10), CompareOp::GreaterEq).to_string(),
        "GTE A, #10"
    );
    assert_eq!(
        Instruction::Cmp(Register::A, Some(Register::B), None, CompareOp::NotEq).to_string(),
        "NEQ A, B"
    );
    assert_eq!(Instruction::CallRet(false, 1024).to_string(), "CALL #1024");
    assert_eq!(Instruction::CallRet(true, 7).to_string(), "RET");
    assert_eq!(Register::FLAGS.to_string(), "FLAGS");
}

#[test]
fn text_of_an_instruction_parses_back() {
    let all = vec![
        Instruction::Noop,
        Instruction::Mov(Register::M, 300),
        Instruction::MovShift(Register::B, 7, true, 31),
        Instruction::MovShift(Register::B, 1, false, 2),
        Instruction::Cpy(Register::A, Register::C),
        Instruction::Arith(Register::A, Some(Register::B), None, ArithmeticOp::Mul),
        Instruction::Arith(Register::A, None, Some(63), ArithmeticOp::Sub),
        Instruction::LdrStr(Register::A, Register::SP, true, 31),
        Instruction::LdbStb(Register::A, Register::SP, false, 0),
        Instruction::Jmp(None, Some(100)),
        Instruction::CondJmp(Some(Register::BP), None),
        Instruction::Cmp(Register::PC, None, Some(31), CompareOp::LessEq),
        Instruction::CallRet(false, 2000),
        Instruction::CallRet(true, 0),
    ];
    for inst in all {
        assert_eq!(line(&inst.to_string()).unwrap(), inst);
    }
}

#[test]
fn program_image_is_little_endian() {
    assert_eq!(program_image(&[0x1234, 0x00FF, 0xAB00]), vec![0x34, 0x12, 0xFF, 0x00, 0x00, 0xAB]);
    assert!(program_image(&[]).is_empty());
    assert_eq!(words_of_image(&[0x34, 0x12, 0xFF, 0x00]), Some(vec![0x1234, 0x00FF]));
    assert_eq!(words_of_image(&[]), Some(vec![]));
    assert_eq!(words_of_image(&[1, 2, 3]), None);
    let words: Vec<u16> = (0..=u16::MAX).step_by(257).collect();
    assert_eq!(words_of_image(&program_image(&words)), Some(words));
}

#[test]
fn programs_assemble_to_words() {
    assert_eq!(rv16asm("MOV A, #8\nADD A, #2\n").unwrap(), vec![0x0401, 0x0803]);
    assert!(matches!(rv16asm("JMP end\nend:\n"), Err(AsmError::UnresolvedLabel(_))));
    let words = assemble("JMP end\nNOOP\nend:\nRET\n").unwrap();
    assert_eq!(words, vec![(4 << 5) | 0b0110, 0, 0b1_1011]);
    assert!(matches!(assemble("MOV"), Err(AsmError::InvalidInstruction)));
}

#[test]
fn resolved_text_of_a_program() {
    let program = resolve_and_parse_assembly("start:\nmov A, #1\njmp start\ncall start").unwrap();
    let text = program_text(&program);
    assert_eq!(text, "MOV A, #1\nJMP #0\nCALL #0\n");
    assert_eq!(parse_assembly(&text).unwrap(), program);
    assert_eq!(program_text(&[]), "");
}

#[test]
fn files_are_known_by_their_extension() {
    let path = String::from("out/prog.bin");
    assert_eq!(Extension::classify(path.clone(), Some("bin")), Ok(Extension::BinaryExt(path.clone())));
    assert_eq!(Extension::classify(path.clone(), Some("S")), Ok(Extension::ResolvedTextExt(path.clone())));
    assert_eq!(Extension::classify(path.clone(), Some("s")), Ok(Extension::UnresolvedTextExt(path.clone())));
    assert_eq!(
        Extension::classify(path.clone(), Some("BIN")),
        Err(String::from("unsupported extension: BIN"))
    );
    assert_eq!(
        Extension::classify(path.clone(), Some("")),
        Err(String::from("unsupported extension: "))
    );
    assert_eq!(
        Extension::classify(path.clone(), None),
        Err(String::from("could not get file extension"))
    );
    assert_eq!(Extension::try_from(String::from("prog.bin")), Ok(Extension::BinaryExt(String::from("prog.bin"))));
    assert_eq!(Extension::of_path(String::from("a.b/prog.s")), Ok(Extension::UnresolvedTextExt(String::from("a.b/prog.s"))));
    assert_eq!(Extension::try_from(String::from("prog.txt")), Err(String::from("unsupported extension: txt")));
    assert_eq!(Extension::try_from(String::from("prog")), Err(String::from("could not get file extension")));
    assert_eq!(Extension::try_from(String::from(".bin")), Err(String::from("could not get file extension")));
}

#[test]
fn contents_of_the_output_file() {
    let program = vec![
        Instruction::Mov(Register::A, 8),
        Instruction::Jmp(None, Some(0)),
    ];
    assert_eq!(
        Extension::BinaryExt(String::from("p.bin")).contents(&program),
        Ok(Contents::Bytes(vec![0x01, 0x04, 0x06, 0x00]))
    );
    assert_eq!(
        Extension::ResolvedTextExt(String::from("p.S")).contents(&program),
        Ok(Contents::Text(String::from("MOV A, #8\nJMP #0\n")))
    );
    assert_eq!(
        Extension::UnresolvedTextExt(String::from("p.s")).contents(&program),
        Err(String::from("not supported"))
    );
    assert!(program.iter().all(Instruction::is_well_formed));
    assert!(!Instruction::Jmp(None, None).is_well_formed());
    assert!(!Instruction::Cmp(Register::A, Some(Register::B), Some(1), CompareOp::Eq).is_well_formed());
}
