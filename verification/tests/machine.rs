use rust16vm::assembler::{encode_instructions, parse_assembly};
use rust16vm::machine::{Machine, Register, State};
use rust16vm::memory::{Addressable, LinearMemory};

fn assemble(lines: &[&str]) -> Vec<u16> {
    let mut code = String::new();
    for line in lines {
        code.push_str(line);
        code.push('\n');
    }
    let instructions = parse_assembly(&code).expect("the program assembles");
    encode_instructions(&instructions)
}

fn run_to_halt(machine: &mut Machine<LinearMemory>) {
    while let Ok(State::Continue) = machine.step() {}
}

#[test]
fn invalid_instruction_opcode() {
    let mut mem = LinearMemory::new(1024);
    mem.write2(0, 0 as u16);
    let mut machine = Machine::new(mem);

    let result = machine.step();
    assert!(result.is_err());
    assert_eq!(Err(String::from("invalid instruction: Noop")), result);
}

#[test]
fn valid_mov_instruction() {
    let mut mem = LinearMemory::new(8 * 1024); //8Kb
    // 3 instructions to fill a register with ones
    mem.write2(0, 0b1111111110000001); // MOV A, #8
    mem.write2(2, 0b1111111010000010); // MSL A, 5 #31
    mem.write2(4, 0b0001110100000010); // MSL A, 2 #3

    let mut machine = Machine::new(mem);
    for _i in 0..3 {
        machine.step().unwrap();
    }

    assert_eq!(machine.register(Register::A), u16::MAX);
}

fn run_after_mov(instrs: Vec<u16>, assertions: Vec<(Register, u16)>) -> Machine<LinearMemory> {
    let mut mem = LinearMemory::new(8 * 1024); //8Kb
    mem.write2(0, 0b0000010000000001); // MOV A, #8
    let inst_len = instrs.len();

    for (idx, inst) in instrs.iter().enumerate() {
        assert!(mem.write2(((idx + 1) * 2) as u16, *inst));
    }

    let mut machine = Machine::new(mem);
    machine.set_register(Register::SP, 8 * 1024);
    for _i in 0..inst_len + 1 {
        machine.step().unwrap();
    }

    for (reg, exp) in assertions {
        assert_eq!(machine.register(reg), exp);
    }

    machine
}

#[test]
fn arithmetic_instruction() {
    // ADD A, #2
    run_after_mov(vec![0b0000100000000011], vec![(Register::A, 10)]);

    // MOV B, #2
    // ADD A, B
    run_after_mov(
        vec![0b000000010_001_0001, 0b000_001_1_00_000_0011],
        vec![(Register::A, 10)],
    );

    // SUB A, #2
    run_after_mov(vec![0b000010_0_01_000_0011], vec![(Register::A, 6)]);

    // MOV B, #2
    // SUB A, B
    run_after_mov(
        vec![0b000000010_001_0001, 0b000_001_1_01_000_0011],
        vec![(Register::A, 6)],
    );

    // MUL A, #2
    run_after_mov(vec![0b000010_0_10_000_0011], vec![(Register::A, 16)]);

    // MOV B, #2
    // MUL A, B
    run_after_mov(
        vec![0b000000010_001_0001, 0b000_001_1_10_000_0011],
        vec![(Register::A, 16)],
    );

    // DIV A, #2 - no FLAGS
    run_after_mov(vec![0b000010_0_11_000_0011], vec![(Register::A, 4)]);

    // MOV FL, #2
    // SUB SP, #2
    // DIV A, #5 - with FLAGS
    let machine = run_after_mov(
        vec![
            0b000000010_111_0001,
            0b000010_0_01_100_0011,
            0b000101_0_11_000_0011,
        ],
        vec![(Register::A, 1)],
    );
    let stored = machine.memory().read2(machine.register(Register::SP));

    assert_eq!(stored.unwrap(), 3_u16);

    // MOV B, #2
    // DIV A, B - no FLAGS
    run_after_mov(
        vec![0b000000010_001_0001, 0b000_001_1_11_000_0011],
        vec![(Register::A, 4)],
    );

    // MOV FL, #2
    // SUB SP, #2
    // MOV B, #2
    // DIV A, B - with FLAGS
    let machine = run_after_mov(
        vec![
            0b000000010_111_0001,
            0b000010_0_01_100_0011,
            0b000000101_001_0001,
            0b000_001_1_11_000_0011,
        ],
        vec![(Register::A, 1)],
    );
    let stored = machine.memory().read2(machine.register(Register::SP));

    assert_eq!(stored.unwrap(), 3_u16);
}

#[test]
fn test_jump_instruction() {
    let mut mem = LinearMemory::new(1024);
    mem.write2(0, 0b00000001010_0_0110); // JMP #10
    mem.write2(10, 0b0000010000000001); // MOV A, #8

    let mut machine = Machine::new(mem);
    machine.step().unwrap();
    assert_eq!(machine.register(Register::PC), 10);

    machine.step().unwrap();

    assert_eq!(machine.register(Register::A), 8);
    assert_eq!(machine.register(Register::PC), 12);
}

#[test]
fn a_simple_for_loop() {
    let program = assemble(&[
        "MOV A, #0",
        // loop
        "EQ A, #10",
        "CJP #10",
        "ADD A, #1",
        "JMP #2",
        "ADD FLAGS, #1", // halts machine
    ]);

    let mut mem = LinearMemory::new(1024);
    assert!(mem.write_program(&program));

    let mut machine = Machine::new(mem);
    run_to_halt(&mut machine);
    assert_eq!(machine.register(Register::A), 10);
    assert_eq!(machine.register(Register::FLAGS) & 1, 1);
}

#[test]
fn should_halt_trying_to_write_at_read_only_addr() {
    let program = assemble(&[
        "MOV A, #39",
        "MOV B, #100", // B stores the addr
        "STR A, B",
    ]);

    let mut mem = LinearMemory::new(1024);
    mem.as_read_only(100, 2); // defines addr 100 as readonly
    assert!(mem.write_program(&program));

    let mut machine = Machine::new(mem);
    run_to_halt(&mut machine);

    assert_eq!(machine.register(Register::FLAGS), 5) // the FLAGS should be 0...101
}

#[test]
fn should_change_flags() {
    let program = assemble(&["MOV A, #1", "EQ A, #1", "EQ A, #2"]);

    let mut mem = LinearMemory::new(1024);
    assert!(mem.write_program(&program));

    let mut machine = Machine::new(mem);

    machine.step().unwrap(); // MOV A, #1

    machine.step().unwrap(); // EQ A, #1
    assert_eq!(machine.register(Register::FLAGS), 0b1000);

    machine.step().unwrap(); // EQ A, #2
    assert_eq!(machine.register(Register::FLAGS), 0b0000)
}

#[test]
fn run_factorial_algorithm() {
    let program = assemble(&[
        "MOV B, #8",
        "MOV A, #1",
        "LTE B, #1",
        "CJP #14",
        "MUL A, B",
        "SUB B, #1",
        "JMP #4",
        "ADD FLAGS, #1",
    ]);

    let mut mem = LinearMemory::new(1024);
    assert!(mem.write_program(&program));

    let mut machine = Machine::new(mem);
    run_to_halt(&mut machine);

    assert_eq!(machine.register(Register::A), 40_320);
}

#[test]
fn call_to_another_label() {
    let program = assemble(&[
        "ADD A, B",
        "RET",
        "MOV C, #11",
        "MOV A, #1",
        "MOV B, #2",
        "CALL #0",
        "MOV C, #55",
        "ADD FLAGS, #1",
    ]);

    println!("{:?}", program);

    let mut mem = LinearMemory::new(1024);
    assert!(mem.write_program(&program));

    let mut machine = Machine::new(mem);

    machine.set_register(Register::PC, 6);

    run_to_halt(&mut machine);

    assert_eq!(Ok(State::Stop), machine.step());
    assert_eq!(machine.register(Register::A), 3);
    assert_eq!(machine.register(Register::B), 2);
    assert_eq!(machine.register(Register::C), 55);
}

#[test]
fn run_fibonacci_algorithm() {
    let program = assemble(&[
        "MOV A, #0",
        "MOV B, #1",
        "MOV M, #0",
        "GTE M, #9",
        "CJP #40",
        "ADD A, B",
        "SUB SP, #2",
        "STR A, SP",
        "LDR C, SP",
        "ADD SP, #2",
        "SUB SP, #2",
        "STR B, SP",
        "LDR A, SP",
        "ADD SP, #2",
        "SUB SP, #2",
        "STR C, SP",
        "LDR B, SP",
        "ADD SP, #2",
        "ADD M, #1",
        "JMP #6",
        "ADD FLAGS, #1",
    ]);

    let mut mem = LinearMemory::new(1024);
    assert!(mem.write_program(&program));

    let mut machine = Machine::new(mem);
    machine.set_register(Register::SP, 1024);

    run_to_halt(&mut machine);

    assert_eq!(machine.register(Register::A), 34);
    assert_eq!(machine.register(Register::B), 55);
    assert_eq!(machine.register(Register::M), 9);
    assert_eq!(machine.register(Register::FLAGS), 1)
}

#[test]
fn test_mod_operation() {
    let program = assemble(&[
        "MOV A, #24",
        "ADD FLAGS, #2",
        "SUB SP, #1",
        "DIV A, #12",
        "LDB C, SP",
        "ADD SP, #1",
        "ADD FLAGS, #1",
    ]);
    let mut mem = LinearMemory::new(1024);
    assert!(mem.write_program(&program));

    let mut machine = Machine::new(mem);
    machine.set_register(Register::SP, 100);

    run_to_halt(&mut machine);

    assert_eq!(machine.register(Register::A), 2);
    assert_eq!(machine.register(Register::C), 0);
    assert_eq!(machine.register(Register::SP), 100);
    assert_eq!(machine.register(Register::FLAGS), 0b11);
}

#[test]
fn register_fill_through_the_program_loader() {
    let program = assemble(&["MOV A, #511", "MSL A, [#31 #5]", "MSL A, [#3 #2]"]);
    assert_eq!(program, vec![0b1111111110000001, 0b1111111010000010, 0b0001110100000010]);
    let mut mem = LinearMemory::new(1024);
    assert!(mem.write_program(&program));
    let mut machine = Machine::new(mem);
    for _ in 0..3 {
        assert_eq!(machine.step(), Ok(State::Continue));
    }
    assert_eq!(machine.register(Register::A), 0xFFFF);
    assert_eq!(machine.register(Register::PC), 6);
}

#[test]
fn halted_machine_stops_without_effect() {
    let mut mem = LinearMemory::new(64);
    mem.write2(0, 0b0000010000000001); // MOV A, #8
    let mut machine = Machine::new(mem);
    machine.set_register(Register::FLAGS, 1);
    assert_eq!(machine.step(), Ok(State::Stop));
    assert_eq!(machine.register(Register::A), 0);
    assert_eq!(machine.register(Register::PC), 0);
    assert_eq!(machine.register(Register::FLAGS), 1);
}

#[test]
fn unreadable_program_counter_is_an_error() {
    let mem = LinearMemory::new(16);
    let mut machine = Machine::new(mem);
    machine.set_register(Register::PC, 16);
    assert_eq!(
        machine.step(),
        Err(String::from("unreadable instruction: 0x0010"))
    );
    assert_eq!(machine.register(Register::PC), 16);

    // the high byte of the word lies beyond the memory
    machine.set_register(Register::PC, 15);
    assert_eq!(
        machine.step(),
        Err(String::from("unreadable instruction: 0x000f"))
    );
}

#[test]
fn unknown_opcode_is_an_error() {
    let mut mem = LinearMemory::new(16);
    mem.write2(0, 0x12fa);
    mem.write2(2, 0b000_0_110_000_0111); // comparison number 6
    let mut machine = Machine::new(mem);
    assert_eq!(
        machine.step(),
        Err(String::from("unexpected instruction: 0x12fa"))
    );
    machine.set_register(Register::PC, 2);
    assert_eq!(
        machine.step(),
        Err(String::from("invalid compare opcode: 6"))
    );
}

#[test]
fn arithmetic_wraps_around() {
    let program = assemble(&[
        "SUB A, #1",   // 0 - 1
        "ADD B, A",    // 0 + 65535
        "ADD B, #2",   // 65535 + 2
        "MUL A, A",    // 65535 * 65535
    ]);
    let mut mem = LinearMemory::new(64);
    assert!(mem.write_program(&program));
    let mut machine = Machine::new(mem);
    machine.step().unwrap();
    assert_eq!(machine.register(Register::A), 0xFFFF);
    machine.step().unwrap();
    machine.step().unwrap();
    assert_eq!(machine.register(Register::B), 1);
    machine.step().unwrap();
    assert_eq!(machine.register(Register::A), 1);
}

#[test]
fn division_by_zero_halts_with_memory_fault() {
    let program = assemble(&["MOV A, #7", "DIV A, B", "MOV A, #1"]);
    let mut mem = LinearMemory::new(64);
    assert!(mem.write_program(&program));
    let mut machine = Machine::new(mem);
    assert_eq!(machine.step(), Ok(State::Continue));
    assert_eq!(machine.step(), Ok(State::Continue));
    assert_eq!(machine.register(Register::A), 7);
    assert_eq!(machine.register(Register::FLAGS), 0b0101);
    assert_eq!(machine.register(Register::PC), 4);
    assert_eq!(machine.step(), Ok(State::Stop));
    assert_eq!(machine.register(Register::A), 7);
}

#[test]
fn rejected_remainder_write_faults_after_the_quotient() {
    // the remainder goes to address 0, which holds the program
    let program = assemble(&["MOV A, #9", "ADD FLAGS, #2", "DIV A, #2"]);
    let mut mem = LinearMemory::new(64);
    assert!(mem.write_program(&program));
    let mut machine = Machine::new(mem);
    run_to_halt(&mut machine);
    assert_eq!(machine.register(Register::A), 4);
    assert_eq!(machine.register(Register::FLAGS), 0b0111);
    assert_eq!(machine.memory().read2(0), Some(program[0]));
}

#[test]
fn conditional_jump_consumes_the_comparison() {
    let program = assemble(&[
        "EQ A, #0",  // holds
        "CJP #6",
        "MOV B, #1", // skipped
        "NEQ A, #0", // does not hold
        "CJP #0",
        "MOV C, #3",
    ]);
    let mut mem = LinearMemory::new(64);
    assert!(mem.write_program(&program));
    let mut machine = Machine::new(mem);
    machine.step().unwrap();
    assert_eq!(machine.register(Register::FLAGS), 0b1000);
    machine.step().unwrap();
    assert_eq!(machine.register(Register::PC), 6);
    assert_eq!(machine.register(Register::FLAGS), 0);
    machine.step().unwrap();
    machine.step().unwrap();
    assert_eq!(machine.register(Register::PC), 10);
    machine.step().unwrap();
    assert_eq!(machine.register(Register::B), 0);
    assert_eq!(machine.register(Register::C), 3);
}

#[test]
fn comparison_keeps_the_other_flags() {
    let program = assemble(&["ADD FLAGS, #50", "LT A, #1", "GT A, #1"]);
    let mut mem = LinearMemory::new(64);
    assert!(mem.write_program(&program));
    let mut machine = Machine::new(mem);
    machine.step().unwrap();
    machine.step().unwrap();
    assert_eq!(machine.register(Register::FLAGS), 50 | 0b1000);
    machine.step().unwrap();
    assert_eq!(machine.register(Register::FLAGS), 50);
}

#[test]
fn call_saves_the_return_address_in_m() {
    let program = assemble(&["NOOP", "CALL #6", "MOV A, #1", "RET"]);
    let mut mem = LinearMemory::new(64);
    assert!(mem.write_program(&program));
    let mut machine = Machine::new(mem);
    machine.set_register(Register::PC, 2);
    machine.step().unwrap();
    assert_eq!(machine.register(Register::PC), 6);
    assert_eq!(machine.register(Register::M), 4);
    machine.step().unwrap();
    assert_eq!(machine.register(Register::PC), 4);
}

#[test]
fn jump_through_a_register() {
    let program = assemble(&["MOV C, #6", "JMP C", "MOV A, #1", "MOV B, #2"]);
    let mut mem = LinearMemory::new(64);
    assert!(mem.write_program(&program));
    let mut machine = Machine::new(mem);
    for _ in 0..3 {
        machine.step().unwrap();
    }
    assert_eq!(machine.register(Register::A), 0);
    assert_eq!(machine.register(Register::B), 2);
}

#[test]
fn byte_store_and_load_and_copy() {
    let program = assemble(&[
        "MOV A, #300", // the low byte is 44
        "MOV B, #40",
        "STB A, [B #2]",
        "LDB C, [B #2]",
        "MOV M, #42",
        "MOV BP, #50",
        "CPY M, BP",
        "LDR A, BP",
    ]);
    let mut mem = LinearMemory::new(64);
    assert!(mem.write_program(&program));
    let mut machine = Machine::new(mem);
    for _ in 0..8 {
        assert_eq!(machine.step(), Ok(State::Continue));
    }
    assert_eq!(machine.register(Register::C), 44);
    assert_eq!(machine.memory().read(50), Some(44));
    assert_eq!(machine.register(Register::A), 44);
    assert_eq!(machine.register(Register::FLAGS), 0);
}

#[test]
fn load_from_unreadable_address_changes_nothing() {
    let program = assemble(&["MOV A, #7", "MOV B, #100", "LDR A, B", "LDB A, B"]);
    let mut mem = LinearMemory::new(64);
    assert!(mem.write_program(&program));
    let mut machine = Machine::new(mem);
    for _ in 0..4 {
        assert_eq!(machine.step(), Ok(State::Continue));
    }
    assert_eq!(machine.register(Register::A), 7);
    assert_eq!(machine.register(Register::FLAGS), 0);
    assert_eq!(machine.register(Register::PC), 8);
}

#[test]
fn failed_copy_halts_with_memory_fault() {
    let program = assemble(&["MOV A, #10", "CPY A, B"]);
    let mut mem = LinearMemory::new(64);
    assert!(mem.write_program(&program));
    let mut machine = Machine::new(mem);
    run_to_halt(&mut machine);
    assert_eq!(machine.register(Register::FLAGS), 5);
    assert_eq!(machine.memory().read2(0), Some(program[0]));
}

#[test]
fn shift_right_and_or() {
    let program = assemble(&["MOV A, #256", "MSR A, [#1 #4]"]);
    let mut mem = LinearMemory::new(64);
    assert!(mem.write_program(&program));
    let mut machine = Machine::new(mem);
    machine.step().unwrap();
    machine.step().unwrap();
    assert_eq!(machine.register(Register::A), 17);
}

#[test]
fn program_counter_wraps_around() {
    let mut mem = LinearMemory::new(1 << 16);
    assert!(mem.write2(0xFFFE, 0b0000010000000001)); // MOV A, #8
    let mut machine = Machine::new(mem);
    machine.set_register(Register::PC, 0xFFFE);
    assert_eq!(machine.step(), Ok(State::Continue));
    assert_eq!(machine.register(Register::PC), 0);
}

#[test]
fn registers_as_text() {
    let mut machine = Machine::new(LinearMemory::new(16));
    machine.set_register(Register::A, 10);
    machine.set_register(Register::B, 0xBEEF);
    machine.set_register(Register::SP, 16);
    machine.set_register(Register::FLAGS, 5);
    let expected = [
        format!("A:\t{:#018b} | {:#04x} | {}", 10, 10, 10),
        format!("B:\t{:#018b} | {:#04x} | {}", 0xBEEF, 0xBEEF, 0xBEEF),
        String::from("C:\t0b0000000000000000 | 0x00 | 0"),
        String::from("M:\t0b0000000000000000 | 0x00 | 0"),
        String::from("SP:\t0b0000000000010000 | 0x10 | 16"),
        String::from("PC:\t0b0000000000000000 | 0x00 | 0"),
        String::from("BP:\t0b0000000000000000 | 0x00 | 0"),
        String::from("FLAGS:\t0b0000000000000101 | 0x05 | 5"),
    ];
    let text = machine.registers_text();
    assert_eq!(text.lines().collect::<Vec<&str>>(), expected);
    assert!(text.ends_with('\n'));
    assert_eq!(expected[0], "A:\t0b0000000000001010 | 0x0a | 10");
    assert_eq!(expected[1], "B:\t0b1011111011101111 | 0xbeef | 48879");
}
