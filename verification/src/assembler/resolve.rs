//! Assembling a whole program: lines, labels and their resolution.
use crate::assembler::chars::{
    chars_of, split_words, texts, trim, trim_end_matches, trimmed, without_trailing, words,
};
use crate::assembler::parse::{parse_parts, parsed_words, uppercase_of};
use crate::assembler::{AsmError, AsmFault};
use crate::machine::{lemma_wrapping, wrap16, Instruction};
use vstd::prelude::*;

verus! {

/// The lines of `code` from position `at` on, where `current` holds the
/// characters of the line that is being read. Each line is trimmed.
pub open spec fn lines_from(code: Seq<char>, at: int, current: Seq<char>) -> Seq<Seq<char>>
    decreases code.len() - at,
{
    if at < 0 || at >= code.len() {
        seq![trimmed(current)]
    } else if code[at] == '\n' {
        seq![trimmed(current)] + lines_from(code, at + 1, Seq::empty())
    } else {
        lines_from(code, at + 1, current.push(code[at]))
    }
}

/// The lines of `code`: the texts between its line feeds, each without the
/// white space at its ends. Line `n` of the source is at position `n - 1`.
pub open spec fn source_lines(code: Seq<char>) -> Seq<Seq<char>> {
    lines_from(code, 0, Seq::empty())
}

/// The line holds nothing, or a comment.
pub open spec fn is_blank(line: Seq<char>) -> bool {
    line.len() == 0 || line[0] == ';'
}

/// The line declares a label: it ends in a colon.
pub open spec fn is_label(line: Seq<char>) -> bool {
    !is_blank(line) && line.last() == ':'
}

/// The line holds an instruction.
pub open spec fn is_instruction(line: Seq<char>) -> bool {
    !is_blank(line) && !is_label(line)
}

/// The name of the label that a label line declares.
pub open spec fn label_name(line: Seq<char>) -> Seq<char> {
    without_trailing(line, ':')
}

/// The number of instruction lines among the first `k` lines.
pub open spec fn instructions_before(lines: Seq<Seq<char>>, k: int) -> nat
    decreases k,
{
    if k <= 0 || k > lines.len() {
        0
    } else if is_instruction(lines[k - 1]) {
        instructions_before(lines, k - 1) + 1
    } else {
        instructions_before(lines, k - 1)
    }
}

/// The address of the next instruction at line `k`: two bytes for each
/// instruction before it, modulo 2^16.
pub open spec fn address_at(lines: Seq<Seq<char>>, k: int) -> u16 {
    wrap16(2 * instructions_before(lines, k) as int)
}

/// The address of the last declaration of `name` before line `k`.
pub open spec fn declared_before(lines: Seq<Seq<char>>, k: int, name: Seq<char>) -> Option<u16>
    decreases k,
{
    if k <= 0 || k > lines.len() {
        None
    } else if is_label(lines[k - 1]) && label_name(lines[k - 1]) == name {
        Some(address_at(lines, k - 1))
    } else {
        declared_before(lines, k - 1, name)
    }
}

/// The address of the first declaration of `name` from line `k` on.
pub open spec fn declared_from(lines: Seq<Seq<char>>, k: int, name: Seq<char>) -> Option<u16>
    decreases lines.len() - k,
{
    if k < 0 || k >= lines.len() {
        None
    } else if is_label(lines[k]) && label_name(lines[k]) == name {
        Some(address_at(lines, k))
    } else {
        declared_from(lines, k + 1, name)
    }
}

/// The address that the label `name` stands for at line `k`: that of its
/// last declaration before the line or, if there is none, that of its first
/// declaration after the line.
pub open spec fn label_at(lines: Seq<Seq<char>>, k: int, name: Seq<char>) -> Option<u16> {
    match declared_before(lines, k, name) {
        Some(addr) => Some(addr),
        None => declared_from(lines, k, name),
    }
}

/// The instruction that line `k` stands for, with the label that it names
/// resolved as `label_at` says.
pub open spec fn line_result(lines: Seq<Seq<char>>, k: int) -> Result<Instruction, AsmFault> {
    let parts = words(lines[k]);
    if parts.len() == 0 {
        Err(AsmFault::InvalidFormat)
    } else {
        parsed_words(
            uppercase_of(parts[0]),
            parts.drop_first(),
            if parts.len() == 2 {
                label_at(lines, k, parts[1])
            } else {
                None
            },
        )
    }
}

/// What the assembler has after some lines: the instructions so far, with
/// `Noop` in the place of one whose label is declared nowhere, and the line
/// number and the label of the first such instruction.
pub struct Assembly {
    pub instructions: Seq<Instruction>,
    pub unresolved: Option<(nat, Seq<char>)>,
}

/// A line that was refused, by its number, and why.
pub struct Refusal {
    pub line: nat,
    pub fault: AsmFault,
}

/// The result of assembling the first `k` lines: the first line that is
/// refused for another reason than its label ends the assembly.
pub open spec fn assembled_upto(lines: Seq<Seq<char>>, k: int) -> Result<Assembly, Refusal>
    decreases k,
{
    if k <= 0 || k > lines.len() {
        Ok(Assembly { instructions: Seq::empty(), unresolved: None })
    } else {
        match assembled_upto(lines, k - 1) {
            Err(refusal) => Err(refusal),
            Ok(sofar) => if !is_instruction(lines[k - 1]) {
                Ok(sofar)
            } else {
                match line_result(lines, k - 1) {
                    Ok(inst) => Ok(
                        Assembly {
                            instructions: sofar.instructions.push(inst),
                            unresolved: sofar.unresolved,
                        },
                    ),
                    Err(AsmFault::UnresolvedLabel(name)) => Ok(
                        Assembly {
                            instructions: sofar.instructions.push(Instruction::Noop),
                            unresolved: if sofar.unresolved is None {
                                Some((k as nat, name))
                            } else {
                                sofar.unresolved
                            },
                        },
                    ),
                    Err(fault) => Err(Refusal { line: k as nat, fault }),
                }
            },
        }
    }
}

/// The program that `code` assembles to, or the first line that is
/// refused. A label that is declared nowhere is reported only when every
/// line has been read, for the first line that names one.
pub open spec fn assembled(code: Seq<char>) -> Result<Seq<Instruction>, Refusal> {
    let lines = source_lines(code);
    match assembled_upto(lines, lines.len() as int) {
        Err(refusal) => Err(refusal),
        Ok(assembly) => match assembly.unresolved {
            Some((line, name)) => Err(Refusal { line, fault: AsmFault::UnresolvedLabel(name) }),
            None => Ok(assembly.instructions),
        },
    }
}

/// The result of assembling the first `k` lines without labels: every line
/// that is not blank is an instruction.
pub open spec fn parsed_upto(lines: Seq<Seq<char>>, k: int) -> Result<Seq<Instruction>, Refusal>
    decreases k,
{
    if k <= 0 || k > lines.len() {
        Ok(Seq::empty())
    } else {
        match parsed_upto(lines, k - 1) {
            Err(refusal) => Err(refusal),
            Ok(sofar) => if is_blank(lines[k - 1]) {
                Ok(sofar)
            } else {
                match unlabelled_result(lines[k - 1]) {
                    Ok(inst) => Ok(sofar.push(inst)),
                    Err(fault) => Err(Refusal { line: k as nat, fault }),
                }
            },
        }
    }
}

/// The instruction that `line` stands for where no label is declared.
pub open spec fn unlabelled_result(line: Seq<char>) -> Result<Instruction, AsmFault> {
    let parts = words(line);
    if parts.len() == 0 {
        Err(AsmFault::InvalidFormat)
    } else {
        parsed_words(uppercase_of(parts[0]), parts.drop_first(), None)
    }
}

/// An assembler error and the number of the line that it was found in.
#[derive(Debug)]
pub struct LineError {
    /// The number of the line, counted from one.
    pub line: usize,
    /// What is wrong with the line.
    pub error: AsmError,
}

impl View for LineError {
    type V = Refusal;

    open spec fn view(&self) -> Refusal {
        Refusal { line: self.line as nat, fault: self.error@ }
    }
}

/// The result of assembling a program, with the views of the instructions
/// and of the error.
pub open spec fn located(r: Result<Vec<Instruction>, LineError>) -> Result<
    Seq<Instruction>,
    Refusal,
> {
    match r {
        Ok(instructions) => Ok(instructions@),
        Err(error) => Err(error@),
    }
}

/// The result of assembling a program without the line of the error.
pub open spec fn unlocated(r: Result<Vec<Instruction>, AsmError>) -> Result<
    Seq<Instruction>,
    AsmFault,
> {
    match r {
        Ok(instructions) => Ok(instructions@),
        Err(error) => Err(error@),
    }
}

/// `r` without the line of the error.
pub open spec fn forget_line(r: Result<Seq<Instruction>, Refusal>) -> Result<
    Seq<Instruction>,
    AsmFault,
> {
    match r {
        Ok(instructions) => Ok(instructions),
        Err(refusal) => Err(refusal.fault),
    }
}

/// A line that is refused ends the assembly: the lines after it change
/// nothing.
pub proof fn lemma_refusal_stays(lines: Seq<Seq<char>>, k: int, n: int)
    requires
        0 <= k <= n <= lines.len(),
        assembled_upto(lines, k) is Err,
    ensures
        assembled_upto(lines, n) == assembled_upto(lines, k),
    decreases n - k,
{
    if k < n {
        lemma_refusal_stays(lines, k, n - 1);
    }
}

/// A line that is refused ends the assembly without labels as well.
pub proof fn lemma_parse_refusal_stays(lines: Seq<Seq<char>>, k: int, n: int)
    requires
        0 <= k <= n <= lines.len(),
        parsed_upto(lines, k) is Err,
    ensures
        parsed_upto(lines, n) == parsed_upto(lines, k),
    decreases n - k,
{
    if k < n {
        lemma_parse_refusal_stays(lines, k, n - 1);
    }
}

/// Splits `code` into its lines and trims each.
pub fn split_lines(code: &Vec<char>) -> (lines: Vec<Vec<char>>)
    ensures
        texts(lines@) == source_lines(code@),
        lines@.len() >= 1,
{
    let mut lines: Vec<Vec<char>> = Vec::new();
    let mut current: Vec<char> = Vec::new();
    let mut i: usize = 0;
    assert(texts(lines@) + lines_from(code@, 0, current@) =~= source_lines(code@));
    while i < code.len()
        invariant
            i <= code@.len(),
            texts(lines@) + lines_from(code@, i as int, current@) == source_lines(code@),
        decreases code@.len() - i,
    {
        let c = code[i];
        if c == '\n' {
            let ghost before = texts(lines@);
            let ghost line = trimmed(current@);
            lines.push(trim(&current));
            assert(texts(lines@) =~= before + seq![line]);
            current = Vec::new();
            assert(texts(lines@) + lines_from(code@, i + 1, current@) =~= before + (seq![line]
                + lines_from(code@, i + 1, Seq::empty())));
        } else {
            current.push(c);
        }
        i += 1;
    }
    let ghost before = texts(lines@);
    let line = trim(&current);
    lines.push(line);
    assert(texts(lines@) =~= before + seq![trimmed(current@)]);
    lines
}

/// Whether the two texts are the same.
fn same_text(a: &Vec<char>, b: &Vec<char>) -> (same: bool)
    ensures
        same == (a@ == b@),
{
    if a.len() != b.len() {
        return false;
    }
    let mut i: usize = 0;
    while i < a.len()
        invariant
            i <= a@.len(),
            a@.len() == b@.len(),
            forall|j: int| 0 <= j < i ==> a@[j] == b@[j],
        decreases a@.len() - i,
    {
        if a[i] != b[i] {
            return false;
        }
        i += 1;
    }
    assert(a@ =~= b@);
    true
}

/// What the assembler knows of a line before it parses it.
struct SourceLine {
    /// The line holds an instruction.
    instruction: bool,
    /// The name of the label that the line declares, if it declares one.
    label: Option<Vec<char>>,
    /// The address of the next instruction at this line.
    address: u16,
}

impl SourceLine {
    /// The record describes line `k` of `lines`.
    spec fn describes(&self, lines: Seq<Seq<char>>, k: int) -> bool {
        &&& self.instruction == is_instruction(lines[k])
        &&& self.label is Some == is_label(lines[k])
        &&& self.label is Some ==> self.label->0@ == label_name(lines[k])
        &&& self.address == address_at(lines, k)
    }
}

/// Every record of `table` describes its line.
spec fn describe(table: Seq<SourceLine>, lines: Seq<Seq<char>>) -> bool {
    &&& table.len() == lines.len()
    &&& forall|k: int| 0 <= k < table.len() ==> (#[trigger] table[k]).describes(lines, k)
}

/// Reads what each line is, and at which address it stands.
fn survey(lines: &Vec<Vec<char>>) -> (table: Vec<SourceLine>)
    ensures
        describe(table@, texts(lines@)),
{
    let ghost source = texts(lines@);
    let mut table: Vec<SourceLine> = Vec::new();
    let mut address: u16 = 0;
    let mut k: usize = 0;
    while k < lines.len()
        invariant
            k <= lines@.len(),
            source == texts(lines@),
            table@.len() == k,
            address == address_at(source, k as int),
            forall|j: int| 0 <= j < k ==> (#[trigger] table@[j]).describes(source, j),
        decreases lines@.len() - k,
    {
        let line = &lines[k];
        assert(line@ == source[k as int]);
        let blank = line.len() == 0 || line[0] == ';';
        let label = if !blank && line[line.len() - 1] == ':' {
            Some(trim_end_matches(line, ':'))
        } else {
            None
        };
        let instruction = !blank && label.is_none();
        table.push(SourceLine { instruction, label, address });
        proof {
            lemma_wrapping(address, 2);
            assert(instructions_before(source, k + 1) == instructions_before(source, k as int) + (
            if instruction {
                1nat
            } else {
                0nat
            }));
        }
        if instruction {
            address = address.wrapping_add(2);
        }
        k += 1;
    }
    table
}

/// The address that the label `name` stands for at line `k`.
fn find_label(table: &Vec<SourceLine>, Ghost(lines): Ghost<Seq<Seq<char>>>, k: usize, name: &Vec<
    char,
>) -> (found: Option<u16>)
    requires
        describe(table@, lines),
        k <= table@.len(),
    ensures
        found == label_at(lines, k as int, name@),
{
    let mut j: usize = k;
    while j > 0
        invariant
            j <= k <= table@.len(),
            describe(table@, lines),
            declared_before(lines, k as int, name@) == declared_before(lines, j as int, name@),
        decreases j,
    {
        let line = &table[j - 1];
        assert(line.describes(lines, j - 1));
        if let Some(label) = &line.label {
            if same_text(label, name) {
                return Some(line.address);
            }
        }
        j -= 1;
    }
    let mut j: usize = k;
    while j < table.len()
        invariant
            k <= j <= table@.len(),
            describe(table@, lines),
            declared_before(lines, k as int, name@) is None,
            declared_from(lines, k as int, name@) == declared_from(lines, j as int, name@),
        decreases table@.len() - j,
    {
        let line = &table[j];
        assert(line.describes(lines, j as int));
        if let Some(label) = &line.label {
            if same_text(label, name) {
                return Some(line.address);
            }
        }
        j += 1;
    }
    None
}

/// Assembles a program and, where a line is refused, says which.
///
/// A line that ends in a colon declares a label for the address of the next
/// instruction; lines that are empty or start with `;` are passed over. A
/// jump or a call may name a label that is declared before or after it.
pub fn resolve_and_locate(code: &str) -> (r: Result<Vec<Instruction>, LineError>)
    ensures
        located(r) == assembled(code@),
{
    let text = chars_of(code);
    let lines = split_lines(&text);
    let table = survey(&lines);
    let ghost source = texts(lines@);
    let mut instructions: Vec<Instruction> = Vec::new();
    let mut unresolved: Option<(usize, String)> = None;
    let mut k: usize = 0;
    while k < lines.len()
        invariant
            k <= lines@.len(),
            source == texts(lines@),
            source == source_lines(code@),
            describe(table@, source),
            assembled_upto(source, k as int) matches Ok(sofar) && {
                &&& sofar.instructions == instructions@
                &&& match (sofar.unresolved, unresolved) {
                    (None, None) => true,
                    (Some((line, name)), Some((at, label))) => line == at && name == label@,
                    _ => false,
                }
            },
        decreases lines@.len() - k,
    {
        assert(table@[k as int].describes(source, k as int));
        if table[k].instruction {
            let parts = split_words(&lines[k]);
            let found = if parts.len() == 2 {
                find_label(&table, Ghost(source), k, &parts[1])
            } else {
                None
            };
            assert(lines@[k as int]@ == source[k as int]);
            match parse_parts(&parts, found) {
                Ok(inst) => {
                    instructions.push(inst);
                },
                Err(AsmError::UnresolvedLabel(label)) => {
                    instructions.push(Instruction::Noop);
                    if unresolved.is_none() {
                        unresolved = Some((k + 1, label));
                    }
                },
                Err(error) => {
                    proof {
                        lemma_refusal_stays(source, k + 1, source.len() as int);
                    }
                    return Err(LineError { line: k + 1, error });
                },
            }
        }
        k += 1;
    }
    match unresolved {
        Some((line, label)) => Err(LineError { line, error: AsmError::UnresolvedLabel(label) }),
        None => Ok(instructions),
    }
}

/// Assembles a program with labels.
pub fn resolve_and_parse_assembly(code: &str) -> (r: Result<Vec<Instruction>, AsmError>)
    ensures
        unlocated(r) == forget_line(assembled(code@)),
{
    match resolve_and_locate(code) {
        Ok(instructions) => Ok(instructions),
        Err(refused) => Err(refused.error),
    }
}

/// Assembles a program without labels and, where a line is refused, says
/// which.
pub fn parse_and_locate(code: &str) -> (r: Result<Vec<Instruction>, LineError>)
    ensures
        located(r) == parsed_upto(source_lines(code@), source_lines(code@).len() as int),
{
    let text = chars_of(code);
    let lines = split_lines(&text);
    let ghost source = texts(lines@);
    let mut instructions: Vec<Instruction> = Vec::new();
    let mut k: usize = 0;
    while k < lines.len()
        invariant
            k <= lines@.len(),
            source == texts(lines@),
            source == source_lines(code@),
            parsed_upto(source, k as int) == Ok::<Seq<Instruction>, Refusal>(instructions@),
        decreases lines@.len() - k,
    {
        let line = &lines[k];
        assert(line@ == source[k as int]);
        if !(line.len() == 0 || line[0] == ';') {
            let parts = split_words(line);
            match parse_parts(&parts, None) {
                Ok(inst) => {
                    instructions.push(inst);
                },
                Err(error) => {
                    proof {
                        lemma_parse_refusal_stays(source, k + 1, source.len() as int);
                    }
                    return Err(LineError { line: k + 1, error });
                },
            }
        }
        k += 1;
    }
    Ok(instructions)
}

/// Assembles a program that uses no labels: every line that is not empty
/// and does not start with `;` is an instruction.
pub fn parse_assembly(code: &str) -> (r: Result<Vec<Instruction>, AsmError>)
    ensures
        unlocated(r) == forget_line(
            parsed_upto(source_lines(code@), source_lines(code@).len() as int),
        ),
{
    match parse_and_locate(code) {
        Ok(instructions) => Ok(instructions),
        Err(refused) => Err(refused.error),
    }
}

} // verus!
