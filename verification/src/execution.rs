//! What holds of the machine when it runs encoded instructions from a
//! linear memory.
use crate::assembler::encode::{encoded, lemma_decode_encode};
use crate::machine::{
    has_flag, lemma_call_then_return, lemma_conditional_jump, memory_step, operand_value, reg_of,
    register_step, steps, steps_on, uses_memory, wrap16, CompareOp, Instruction, Register, State,
    FLAG_CMPTRUE, FLAG_HALT,
};
use crate::memory::{lemma_linear_word_read, reads_word, LinearMemory, MemoryModel};
use vstd::prelude::*;

verus! {

/// The machine with the registers `regs` is not halted and finds the word
/// of `inst` at `PC`.
pub open spec fn fetches(regs: Seq<u16>, mem: &LinearMemory, inst: Instruction) -> bool {
    &&& regs.len() == 8
    &&& inst.representable()
    &&& !has_flag(reg_of(regs, Register::FLAGS), FLAG_HALT)
    &&& reads_word(mem, reg_of(regs, Register::PC), Some(encoded(inst)))
}

/// A step of a machine that finds the word of an instruction at `PC` runs
/// that instruction: an instruction that leaves memory alone changes the
/// registers as `register_step` says, and any other as `memory_step` says.
pub proof fn lemma_step_runs(
    regs: Seq<u16>,
    mem: &LinearMemory,
    inst: Instruction,
    after_regs: Seq<u16>,
    after_mem: &LinearMemory,
    outcome: Result<State, Seq<char>>,
)
    requires
        fetches(regs, mem, inst),
        inst != Instruction::Noop,
        steps(regs, mem, after_regs, after_mem, outcome),
    ensures
        outcome == Ok::<State, Seq<char>>(State::Continue),
        !uses_memory(regs, inst) ==> after_regs == register_step(regs, inst) && *after_mem == *mem,
        uses_memory(regs, inst) ==> memory_step(regs, mem, inst, after_regs, after_mem),
{
    let pc = reg_of(regs, Register::PC);
    let fetched = choose|fetched: Option<u16>|
        {
            &&& #[trigger] reads_word(mem, pc, fetched)
            &&& steps_on(regs, mem, fetched, after_regs, after_mem, outcome)
        };
    lemma_linear_word_read(mem, pc, fetched);
    lemma_linear_word_read(mem, pc, Some(encoded(inst)));
    lemma_decode_encode(inst);
}

/// After the step that runs `JMP #n`, the next instruction is fetched at `n`.
pub proof fn lemma_jump_step(
    regs: Seq<u16>,
    mem: &LinearMemory,
    n: u16,
    after_regs: Seq<u16>,
    after_mem: &LinearMemory,
    outcome: Result<State, Seq<char>>,
)
    requires
        n < 2048,
        fetches(regs, mem, Instruction::Jmp(None, Some(n))),
        steps(regs, mem, after_regs, after_mem, outcome),
    ensures
        outcome == Ok::<State, Seq<char>>(State::Continue),
        reg_of(after_regs, Register::PC) == n,
        *after_mem == *mem,
{
    lemma_step_runs(regs, mem, Instruction::Jmp(None, Some(n)), after_regs, after_mem, outcome);
}

/// A comparison and, right after it, `CJP #n`: if the comparison holds,
/// the two steps end with `PC` at `n` and the comparison bit clear; if it
/// does not hold, `PC` has moved on by two from the conditional jump.
pub proof fn lemma_compare_and_jump_steps(
    regs: Seq<u16>,
    mem: &LinearMemory,
    first: Register,
    reg: Option<Register>,
    imm: Option<u16>,
    relation: CompareOp,
    n: u16,
    mid_regs: Seq<u16>,
    mid_mem: &LinearMemory,
    mid_outcome: Result<State, Seq<char>>,
    after_regs: Seq<u16>,
    after_mem: &LinearMemory,
    outcome: Result<State, Seq<char>>,
)
    requires
        n < 2048,
        fetches(regs, mem, Instruction::Cmp(first, reg, imm, relation)),
        steps(regs, mem, mid_regs, mid_mem, mid_outcome),
        fetches(mid_regs, mid_mem, Instruction::CondJmp(None, Some(n))),
        steps(mid_regs, mid_mem, after_regs, after_mem, outcome),
    ensures
        outcome == Ok::<State, Seq<char>>(State::Continue),
        *after_mem == *mem,
        relation.holds(reg_of(regs, first), operand_value(regs, reg, imm)) ==> reg_of(
            after_regs,
            Register::PC,
        ) == n && !has_flag(reg_of(after_regs, Register::FLAGS), FLAG_CMPTRUE),
        !relation.holds(reg_of(regs, first), operand_value(regs, reg, imm)) ==> reg_of(
            after_regs,
            Register::PC,
        ) == wrap16(reg_of(mid_regs, Register::PC) + 2),
{
    lemma_step_runs(
        regs,
        mem,
        Instruction::Cmp(first, reg, imm, relation),
        mid_regs,
        mid_mem,
        mid_outcome,
    );
    lemma_step_runs(
        mid_regs,
        mid_mem,
        Instruction::CondJmp(None, Some(n)),
        after_regs,
        after_mem,
        outcome,
    );
    lemma_conditional_jump(regs, first, reg, imm, relation, n);
}

/// `CALL #n` and, with `M` as the call left it, `RET`: the step that runs
/// the return ends with `PC` at the instruction after the call.
pub proof fn lemma_call_and_return_steps(
    regs: Seq<u16>,
    mem: &LinearMemory,
    n: u16,
    called_regs: Seq<u16>,
    called_mem: &LinearMemory,
    called_outcome: Result<State, Seq<char>>,
    later_regs: Seq<u16>,
    later_mem: &LinearMemory,
    ignored: u16,
    after_regs: Seq<u16>,
    after_mem: &LinearMemory,
    outcome: Result<State, Seq<char>>,
)
    requires
        n < 2048,
        fetches(regs, mem, Instruction::CallRet(false, n)),
        steps(regs, mem, called_regs, called_mem, called_outcome),
        fetches(later_regs, later_mem, Instruction::CallRet(true, ignored)),
        reg_of(later_regs, Register::M) == reg_of(called_regs, Register::M),
        steps(later_regs, later_mem, after_regs, after_mem, outcome),
    ensures
        reg_of(called_regs, Register::PC) == n,
        reg_of(called_regs, Register::M) == wrap16(reg_of(regs, Register::PC) + 2),
        outcome == Ok::<State, Seq<char>>(State::Continue),
        reg_of(after_regs, Register::PC) == wrap16(reg_of(regs, Register::PC) + 2),
{
    lemma_step_runs(
        regs,
        mem,
        Instruction::CallRet(false, n),
        called_regs,
        called_mem,
        called_outcome,
    );
    lemma_step_runs(
        later_regs,
        later_mem,
        Instruction::CallRet(true, ignored),
        after_regs,
        after_mem,
        outcome,
    );
    lemma_call_then_return(regs, n, later_regs, ignored);
}

/// A halted machine stops, and the step changes nothing.
pub proof fn lemma_halted_stops<M: MemoryModel>(
    regs: Seq<u16>,
    mem: &M,
    after_regs: Seq<u16>,
    after_mem: &M,
    outcome: Result<State, Seq<char>>,
)
    requires
        has_flag(reg_of(regs, Register::FLAGS), FLAG_HALT),
        steps(regs, mem, after_regs, after_mem, outcome),
    ensures
        outcome == Ok::<State, Seq<char>>(State::Stop),
        after_regs == regs,
        *after_mem == *mem,
{
}

} // verus!
