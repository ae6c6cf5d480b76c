//! What the debugger shows: the instructions around the current one.
use crate::assembler::render::instruction_text;
use crate::devices::terminal::Key;
use crate::machine::{decode_error_text, decoded, Instruction, Register};
use vstd::prelude::*;

verus! {

/// The number of instructions that the pane shows while the current one is
/// among the first four.
pub const WINDOW_AT_START: usize = 10;

/// The number of instructions that the pane shows before the current one
/// further down.
pub const WINDOW_BEFORE: usize = 2;

/// The number of instructions that the pane shows from the current one on
/// further down.
pub const WINDOW_FROM: usize = 8;

/// The first position of the window on a program of `len` words with the
/// current instruction at `current`.
pub open spec fn window_start(len: nat, current: nat) -> nat {
    if current < 4 {
        0
    } else if current - WINDOW_BEFORE <= len {
        (current - WINDOW_BEFORE) as nat
    } else {
        len
    }
}

/// The position after the last one of the window.
pub open spec fn window_end(len: nat, current: nat) -> nat {
    if current < 4 {
        if len < WINDOW_AT_START {
            len
        } else {
            WINDOW_AT_START as nat
        }
    } else if current + WINDOW_FROM <= len {
        (current + WINDOW_FROM) as nat
    } else {
        len
    }
}

/// The window on `code`: its words from `window_start` up to `window_end`,
/// each with the mark of the current instruction. Near the start the mark
/// is on the current position; further down it is on the third line of the
/// window.
pub open spec fn window_of(code: Seq<u16>, current: nat) -> Seq<(u16, bool)> {
    let start = window_start(code.len(), current);
    let end = window_end(code.len(), current);
    Seq::new(
        (end - start) as nat,
        |i: int|
            (
                code[start + i],
                if current < 4 {
                    i == current
                } else {
                    i == WINDOW_BEFORE
                },
            ),
    )
}

/// The line that lists the word `word`: the assembly of its instruction,
/// or the text of the error if the word holds none.
pub open spec fn word_text(word: u16) -> Seq<char> {
    match decoded(word) {
        Some(inst) => instruction_text(inst),
        None => decode_error_text(word),
    }
}

/// The pane of the debugger that lists instructions.
pub struct InstructionsPane {
    code: Vec<u16>,
    current_instruction: usize,
}

impl InstructionsPane {
    /// The words of the program.
    pub closed spec fn code(&self) -> Seq<u16> {
        self.code@
    }

    /// The position of the current instruction.
    pub closed spec fn current(&self) -> nat {
        self.current_instruction as nat
    }

    /// A pane on `insts` with the instruction at `curr_inst` as the current one.
    pub fn new(insts: Vec<u16>, curr_inst: usize) -> (pane: Self)
        ensures
            pane.code() == insts@,
            pane.current() == curr_inst,
    {
        Self { code: insts, current_instruction: curr_inst }
    }

    /// The instruction words to show, each with the mark of the current one.
    pub fn window(&self) -> (shown: Vec<(u16, bool)>)
        ensures
            shown@ == window_of(self.code(), self.current()),
    {
        let len = self.code.len();
        let current = self.current_instruction;
        let (start, end) = if current < 4 {
            (
                0,
                if len < WINDOW_AT_START {
                    len
                } else {
                    WINDOW_AT_START
                },
            )
        } else {
            (
                if current - WINDOW_BEFORE <= len {
                    current - WINDOW_BEFORE
                } else {
                    len
                },
                if current <= len && len - current >= WINDOW_FROM {
                    current + WINDOW_FROM
                } else {
                    len
                },
            )
        };
        let mut shown: Vec<(u16, bool)> = Vec::new();
        let mut i: usize = start;
        while i < end
            invariant
                start <= i <= end || (end < start && i == start),
                end <= len,
                len == self.code@.len(),
                current == self.current_instruction,
                start == window_start(len as nat, current as nat),
                end == window_end(len as nat, current as nat),
                shown@.len() == i - start,
                forall|j: int|
                    0 <= j < shown@.len() ==> shown@[j] == (#[trigger] window_of(
                        self.code(),
                        self.current(),
                    )[j]),
            decreases end - i,
        {
            let marked = if current < 4 {
                i - start == current
            } else {
                i - start == WINDOW_BEFORE
            };
            shown.push((self.code[i], marked));
            i += 1;
        }
        assert(shown@ =~= window_of(self.code(), self.current()));
        shown
    }

    /// The lines to show: the text of each word of the window, with the
    /// mark of the current instruction.
    pub fn listing(&self) -> (lines: Vec<(String, bool)>)
        ensures
            lines@.len() == window_of(self.code(), self.current()).len(),
            forall|i: int|
                0 <= i < lines@.len() ==> (#[trigger] lines@[i]).0@ == word_text(
                    window_of(self.code(), self.current())[i].0,
                ) && lines@[i].1 == window_of(self.code(), self.current())[i].1,
    {
        let shown = self.window();
        let mut lines: Vec<(String, bool)> = Vec::new();
        let mut i: usize = 0;
        while i < shown.len()
            invariant
                i <= shown@.len(),
                lines@.len() == i,
                forall|j: int|
                    0 <= j < i ==> (#[trigger] lines@[j]).0@ == word_text(shown@[j].0)
                        && lines@[j].1 == shown@[j].1,
            decreases shown@.len() - i,
        {
            let (word, marked) = shown[i];
            let text = match Instruction::try_from(word) {
                Ok(inst) => inst.to_string(),
                Err(message) => message,
            };
            lines.push((text, marked));
            i += 1;
        }
        lines
    }

    /// Makes the instruction before the current one the current one, if
    /// there is one.
    pub fn previous(&mut self)
        ensures
            final(self).code() == old(self).code(),
            final(self).current() == if old(self).current() > 0 {
                (old(self).current() - 1) as nat
            } else {
                old(self).current()
            },
    {
        if self.current_instruction > 0 {
            self.current_instruction -= 1;
        }
    }

    /// Makes the instruction after the current one the current one, if
    /// there is one.
    pub fn next(&mut self)
        ensures
            final(self).code() == old(self).code(),
            final(self).current() == if old(self).current() + 1 < old(self).code().len() {
                old(self).current() + 1
            } else {
                old(self).current()
            },
    {
        if self.code.len() > 0 && self.current_instruction < self.code.len() - 1 {
            self.current_instruction += 1;
        }
    }
}

/// What the screen finds when it looks for a message from the machine.
#[derive(Debug, Clone, Copy, PartialEq, Eq, Structural)]
pub enum Inbox {
    /// A message has come.
    Message,
    /// There is no message.
    Empty,
    /// The machine has gone.
    Closed,
}

/// What the debugger screen shows, and whether it is to be closed.
pub struct ScreenState {
    exit: bool,
    instructions_pane: Option<InstructionsPane>,
}

impl ScreenState {
    /// The screen is to be closed.
    pub closed spec fn closing(&self) -> bool {
        self.exit
    }

    /// The pane that lists the instructions, if the screen has one.
    pub closed spec fn pane(&self) -> Option<InstructionsPane> {
        self.instructions_pane
    }

    /// An open screen that shows what `opts` asks for.
    pub fn new(opts: ScreenOptions) -> (screen: Self)
        ensures
            !screen.closing(),
            match opts.instructions() {
                Some((code, current)) => screen.pane() is Some && screen.pane()->0.code() == code
                    && screen.pane()->0.current() == current,
                None => screen.pane() is None,
            },
    {
        Self { exit: false, instructions_pane: opts.instructions_pane() }
    }

    /// Whether the screen is to be closed.
    pub fn is_closing(&self) -> (closing: bool)
        ensures
            closing == self.closing(),
    {
        self.exit
    }

    /// The pane that lists the instructions, if the screen has one.
    pub fn instructions(&self) -> (pane: Option<&InstructionsPane>)
        ensures
            match pane {
                Some(p) => self.pane() == Some(*p),
                None => self.pane() is None,
            },
    {
        self.instructions_pane.as_ref()
    }

    /// Takes note of what the inbox held. A closed inbox closes the screen,
    /// and `false` says that the screen has failed.
    pub fn inbox(&mut self, found: Inbox) -> (ok: bool)
        ensures
            ok == (found != Inbox::Closed),
            final(self).closing() == (old(self).closing() || found == Inbox::Closed),
            final(self).pane() == old(self).pane(),
    {
        match found {
            Inbox::Closed => {
                self.exit = true;
                false
            },
            _ => true,
        }
    }

    /// Reacts to a key: `q` closes the screen, and the arrows to the left
    /// and to the right move the current instruction of the pane.
    pub fn handle_key_press(&mut self, key: Key)
        ensures
            final(self).closing() == (old(self).closing() || key == Key::Char('q')),
            match old(self).pane() {
                None => final(self).pane() is None,
                Some(before) => final(self).pane() is Some && final(self).pane()->0.code()
                    == before.code() && final(self).pane()->0.current() == if key == Key::Left
                    && before.current() > 0 {
                    (before.current() - 1) as nat
                } else if key == Key::Right && before.current() + 1 < before.code().len() {
                    before.current() + 1
                } else {
                    before.current()
                },
            },
    {
        match key {
            Key::Char('q') => {
                self.exit = true;
            },
            Key::Left => {
                if let Some(pane) = &mut self.instructions_pane {
                    pane.previous();
                }
            },
            Key::Right => {
                if let Some(pane) = &mut self.instructions_pane {
                    pane.next();
                }
            },
            _ => {},
        }
    }
}

/// What the debugger is asked to show.
pub struct ScreenOptions {
    show_instructions: Option<(Vec<u16>, usize)>,
    show_registers: Option<Vec<Register>>,
}

impl ScreenOptions {
    /// The program to list and the position of its current instruction, if
    /// instructions are to be shown.
    pub closed spec fn instructions(&self) -> Option<(Seq<u16>, usize)> {
        match self.show_instructions {
            Some((code, current)) => Some((code@, current)),
            None => None,
        }
    }

    /// The registers to show, if registers are to be shown.
    pub closed spec fn registers(&self) -> Option<Seq<Register>> {
        match self.show_registers {
            Some(registers) => Some(registers@),
            None => None,
        }
    }

    /// Asks for the instructions `inst` to be listed, with the one at `idx`
    /// as the current one.
    pub fn debug_instructions(&mut self, inst: Vec<u16>, idx: usize) -> (options: &mut Self)
        ensures
            options.instructions() == Some((inst@, idx)),
            options.registers() == old(self).registers(),
            *final(self) == *final(options),
    {
        self.show_instructions = Some((inst, idx));
        self
    }

    /// The pane that lists the instructions, if they are to be shown.
    pub fn instructions_pane(self) -> (pane: Option<InstructionsPane>)
        ensures
            match self.instructions() {
                Some((code, current)) => pane is Some && pane->0.code() == code
                    && pane->0.current() == current,
                None => pane is None,
            },
    {
        match self.show_instructions {
            Some((code, current)) => Some(InstructionsPane::new(code, current)),
            None => None,
        }
    }
}

impl Default for ScreenOptions {
    /// Options that ask for nothing to be shown.
    fn default() -> (options: Self)
        ensures
            options.instructions() is None,
            options.registers() is None,
    {
        Self { show_instructions: None, show_registers: None }
    }
}

} // verus!
