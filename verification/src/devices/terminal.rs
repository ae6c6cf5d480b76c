//! A text terminal of 256 bytes with a cursor, a command register and a
//! flags byte. The terminal keeps its registers and says what is to be
//! done on the screen; doing it is left to whoever owns the terminal.
use crate::devices::Device;
use vstd::prelude::*;

verus! {

/// The offset of the first byte of the text buffer.
pub const TERM_BUFFER_START: usize = 0x0000;

/// The number of bytes of the text buffer.
pub const TERM_BUFFER_SIZE: usize = 256;

/// The offset of the last byte of the text buffer.
pub const TERM_BUFFER_END: usize = 255;

/// The offset of the column of the cursor.
pub const TERM_CURSOR_X: usize = 0x0100;

/// The offset of the row of the cursor.
pub const TERM_CURSOR_Y: usize = 0x0101;

/// The offset of the command register.
pub const TERM_COMMAND: usize = 0x0102;

/// The offset of the flags byte.
pub const TERM_FLAGS: usize = 0x0103;

/// The command that clears the screen and the buffer.
pub const TERM_CMD_CLEAR: u8 = 0b01;

/// The command that prints the buffer at the cursor.
pub const TERM_CMD_FLUSH: u8 = 0b10;

/// The command that moves the cursor to the top left.
pub const TERM_CMD_RESET_CURSOR: u8 = 0b11;

/// The command that moves the cursor of the screen to the cursor registers.
pub const TERM_CMD_SET_CURSOR: u8 = 0b100;

/// The flag of a terminal that is ready.
pub const TERM_FLAG_READY: u8 = 0b1;

/// The flag of a terminal that was given a command it could not carry out.
pub const TERM_FLAG_ERROR: u8 = 0b10;

/// The byte that ends the text of the buffer.
pub const TERM_END_OF_TEXT: u8 = 3;

/// A key as the terminal reads it from the keyboard of the host.
#[derive(Debug, Clone, Copy, PartialEq, Eq, Structural)]
pub enum Key {
    /// A key that stands for a character.
    Char(char),
    /// The backspace key.
    Backspace,
    /// The enter key.
    Enter,
    /// The arrow to the left.
    Left,
    /// The arrow to the right.
    Right,
    /// Any other key.
    Other,
}

/// What a key press means to the driver of the machine.
#[derive(Debug, Clone, Copy, PartialEq, Eq, Structural)]
pub enum TerminalAction {
    KeyPressed(char),
    KeyPressedEnter,
    KeyPressedBackspace,
    Unknown,
    NumberPressed(char),
}

impl TerminalAction {
    /// The action that the key `key` stands for: a digit is a number, any
    /// other character a key.
    pub open spec fn of_key(key: Key) -> TerminalAction {
        match key {
            Key::Char(c) => if '0' <= c <= '9' {
                TerminalAction::NumberPressed(c)
            } else {
                TerminalAction::KeyPressed(c)
            },
            Key::Backspace => TerminalAction::KeyPressedBackspace,
            Key::Enter => TerminalAction::KeyPressedEnter,
            _ => TerminalAction::Unknown,
        }
    }

    /// The action that the key `key` stands for.
    pub fn from_key(key: Key) -> (action: TerminalAction)
        ensures
            action == TerminalAction::of_key(key),
    {
        match key {
            Key::Char(c) => if '0' <= c && c <= '9' {
                TerminalAction::NumberPressed(c)
            } else {
                TerminalAction::KeyPressed(c)
            },
            Key::Backspace => TerminalAction::KeyPressedBackspace,
            Key::Enter => TerminalAction::KeyPressedEnter,
            _ => TerminalAction::Unknown,
        }
    }
}

/// Something for the screen of the host to do.
#[derive(Debug, PartialEq, Eq)]
pub enum TerminalOutput {
    /// Clear the screen.
    Clear,
    /// Print the text, which is UTF-8, at the column and row.
    Print(u8, u8, Vec<u8>),
    /// Move the cursor to the column and row.
    MoveTo(u8, u8),
}

/// A terminal output with the bytes of its text.
pub enum TerminalEffect {
    Clear,
    Print(u8, u8, Seq<u8>),
    MoveTo(u8, u8),
}

impl View for TerminalOutput {
    type V = TerminalEffect;

    open spec fn view(&self) -> TerminalEffect {
        match self {
            TerminalOutput::Clear => TerminalEffect::Clear,
            TerminalOutput::Print(column, row, text) => TerminalEffect::Print(
                *column,
                *row,
                text@,
            ),
            TerminalOutput::MoveTo(column, row) => TerminalEffect::MoveTo(*column, *row),
        }
    }
}

/// The effects of the outputs `outputs`.
pub open spec fn effects(outputs: Seq<TerminalOutput>) -> Seq<TerminalEffect> {
    Seq::new(outputs.len(), |i: int| outputs[i]@)
}

/// The registers of the terminal.
pub struct TerminalState {
    /// The 256 bytes of the text buffer.
    pub buffer: Seq<u8>,
    /// The column and the row of the cursor.
    pub cursor: (u8, u8),
    /// The flags byte.
    pub flags: u8,
}

/// The text that a buffer holds: its bytes up to the first end-of-text byte.
pub open spec fn text_of_buffer(buffer: Seq<u8>) -> Seq<u8>
    decreases buffer.len(),
{
    if buffer.len() == 0 || buffer[0] == TERM_END_OF_TEXT {
        Seq::empty()
    } else {
        seq![buffer[0]] + text_of_buffer(buffer.drop_first())
    }
}

/// A buffer of 256 zero bytes.
pub open spec fn blank_buffer() -> Seq<u8> {
    Seq::new(256, |i: int| 0u8)
}

/// The registers after the command `cmd`. A flush of a buffer whose text is
/// not UTF-8, and an unknown command, raise the error flag.
pub open spec fn state_after_command(state: TerminalState, cmd: u8) -> TerminalState {
    if cmd == TERM_CMD_CLEAR {
        TerminalState { buffer: blank_buffer(), ..state }
    } else if cmd == TERM_CMD_FLUSH {
        if vstd::utf8::valid_utf8(text_of_buffer(state.buffer)) {
            TerminalState { buffer: blank_buffer(), ..state }
        } else {
            TerminalState { flags: state.flags | TERM_FLAG_ERROR, ..state }
        }
    } else if cmd == TERM_CMD_RESET_CURSOR {
        TerminalState { cursor: (0, 0), ..state }
    } else if cmd == TERM_CMD_SET_CURSOR {
        state
    } else {
        TerminalState { flags: state.flags | TERM_FLAG_ERROR, ..state }
    }
}

/// What the command `cmd` asks of the screen, if anything.
pub open spec fn effect_of_command(state: TerminalState, cmd: u8) -> Option<TerminalEffect> {
    if cmd == TERM_CMD_CLEAR {
        Some(TerminalEffect::Clear)
    } else if cmd == TERM_CMD_FLUSH {
        if vstd::utf8::valid_utf8(text_of_buffer(state.buffer)) {
            Some(TerminalEffect::Print(state.cursor.0, state.cursor.1, text_of_buffer(state.buffer)))
        } else {
            None
        }
    } else if cmd == TERM_CMD_RESET_CURSOR {
        Some(TerminalEffect::MoveTo(0, 0))
    } else if cmd == TERM_CMD_SET_CURSOR {
        Some(TerminalEffect::MoveTo(state.cursor.0, state.cursor.1))
    } else {
        None
    }
}

/// The byte that a read at `offset` answers.
pub open spec fn byte_read(state: TerminalState, offset: usize) -> u8 {
    if offset <= TERM_BUFFER_END {
        state.buffer[offset as int]
    } else if offset == TERM_CURSOR_X {
        state.cursor.0
    } else if offset == TERM_CURSOR_Y {
        state.cursor.1
    } else if offset == TERM_FLAGS {
        state.flags
    } else {
        0
    }
}

/// The registers after `value` was written at `offset`.
pub open spec fn state_after_write(state: TerminalState, offset: usize, value: u8) -> TerminalState {
    if offset <= TERM_BUFFER_END {
        TerminalState { buffer: state.buffer.update(offset as int, value), ..state }
    } else if offset == TERM_CURSOR_X {
        TerminalState { cursor: (value, state.cursor.1), ..state }
    } else if offset == TERM_CURSOR_Y {
        TerminalState { cursor: (state.cursor.0, value), ..state }
    } else if offset == TERM_COMMAND {
        state_after_command(state, value)
    } else if offset == TERM_FLAGS {
        TerminalState { flags: value, ..state }
    } else {
        state
    }
}

/// What a write of `value` at `offset` asks of the screen, if anything.
pub open spec fn effect_of_write(state: TerminalState, offset: usize, value: u8) -> Option<
    TerminalEffect,
> {
    if offset == TERM_COMMAND {
        effect_of_command(state, value)
    } else {
        None
    }
}

/// `effects` with `effect` at its end, if there is one.
pub open spec fn with_effect(effects: Seq<TerminalEffect>, effect: Option<TerminalEffect>) -> Seq<
    TerminalEffect,
> {
    match effect {
        Some(e) => effects.push(e),
        None => effects,
    }
}

/// `std::str::from_utf8`: whether the bytes are well-formed UTF-8.
#[verifier::external_body]
fn is_utf8(bytes: &[u8]) -> (valid: bool)
    ensures
        valid == vstd::utf8::valid_utf8(bytes@),
{
    std::str::from_utf8(bytes).is_ok()
}

/// The terminal device.
pub struct Terminal256 {
    buffer: [u8; 256],
    cursor: (u8, u8),
    flags: u8,
    outbox: Vec<TerminalOutput>,
}

impl Terminal256 {
    /// The registers of the terminal.
    pub closed spec fn state(&self) -> TerminalState {
        TerminalState { buffer: self.buffer@, cursor: self.cursor, flags: self.flags }
    }

    /// What the terminal has asked of the screen and nobody has taken yet,
    /// oldest first.
    pub closed spec fn pending(&self) -> Seq<TerminalEffect> {
        effects(self.outbox@)
    }

    /// A terminal that is ready, with a blank buffer, the cursor at the top
    /// left and nothing pending.
    pub fn new() -> (terminal: Self)
        ensures
            terminal.state() == (TerminalState {
                buffer: blank_buffer(),
                cursor: (0, 0),
                flags: TERM_FLAG_READY,
            }),
            terminal.pending() == Seq::<TerminalEffect>::empty(),
    {
        let terminal = Self {
            buffer: [0;256],
            cursor: (0, 0),
            flags: TERM_FLAG_READY,
            outbox: Vec::new(),
        };
        assert(terminal.buffer@ =~= blank_buffer());
        assert(terminal.pending() =~= Seq::<TerminalEffect>::empty());
        terminal
    }

    /// Hands over what the terminal has asked of the screen since the last
    /// call, oldest first.
    pub fn take_outputs(&mut self) -> (outputs: Vec<TerminalOutput>)
        ensures
            effects(outputs@) == old(self).pending(),
            final(self).pending() == Seq::<TerminalEffect>::empty(),
            final(self).state() == old(self).state(),
    {
        let mut outputs: Vec<TerminalOutput> = Vec::new();
        std::mem::swap(&mut outputs, &mut self.outbox);
        assert(self.pending() =~= Seq::<TerminalEffect>::empty());
        outputs
    }

    /// The bytes of the buffer up to the first end-of-text byte.
    fn text(&self) -> (text: Vec<u8>)
        ensures
            text@ == text_of_buffer(self.buffer@),
    {
        let mut text: Vec<u8> = Vec::new();
        let mut i: usize = 0;
        assert(self.buffer@.subrange(0, 256) =~= self.buffer@);
        while i < 256 && self.buffer[i] != TERM_END_OF_TEXT
            invariant
                i <= 256,
                self.buffer@.len() == 256,
                text_of_buffer(self.buffer@) == text@ + text_of_buffer(
                    self.buffer@.subrange(i as int, 256),
                ),
            decreases 256 - i,
        {
            let ghost rest = self.buffer@.subrange(i as int, 256);
            assert(rest.drop_first() =~= self.buffer@.subrange(i + 1, 256));
            assert(text@.push(self.buffer@[i as int]) + text_of_buffer(rest.drop_first()) =~= text@
                + (seq![rest[0]] + text_of_buffer(rest.drop_first())));
            text.push(self.buffer[i]);
            i += 1;
        }
        assert(text@ + Seq::<u8>::empty() =~= text@);
        text
    }

    fn emit(&mut self, output: TerminalOutput)
        ensures
            final(self).state() == old(self).state(),
            final(self).pending() == old(self).pending().push(output@),
    {
        self.outbox.push(output);
        assert(self.pending() =~= old(self).pending().push(output@));
    }

    /// Carries out the command `cmd`.
    pub fn execute_command(&mut self, cmd: u8)
        ensures
            final(self).state() == state_after_command(old(self).state(), cmd),
            final(self).pending() == with_effect(
                old(self).pending(),
                effect_of_command(old(self).state(), cmd),
            ),
    {
        if cmd == TERM_CMD_CLEAR {
            self.emit(TerminalOutput::Clear);
            self.buffer = [0;256];
            assert(self.buffer@ =~= blank_buffer());
        } else if cmd == TERM_CMD_FLUSH {
            let text = self.text();
            if is_utf8(text.as_slice()) {
                self.emit(TerminalOutput::Print(self.cursor.0, self.cursor.1, text));
                self.buffer = [0;256];
                assert(self.buffer@ =~= blank_buffer());
            } else {
                self.flags = self.flags | TERM_FLAG_ERROR;
            }
        } else if cmd == TERM_CMD_RESET_CURSOR {
            self.cursor = (0, 0);
            self.emit(TerminalOutput::MoveTo(0, 0));
        } else if cmd == TERM_CMD_SET_CURSOR {
            self.emit(TerminalOutput::MoveTo(self.cursor.0, self.cursor.1));
        } else {
            self.flags = self.flags | TERM_FLAG_ERROR;
        }
    }
}

impl Device for Terminal256 {
    /// The byte of the register at `offset`; zero where there is none, and
    /// for the command register.
    fn read(&self, offset: usize) -> (value: u8)
        ensures
            value == byte_read(self.state(), offset),
    {
        if offset <= TERM_BUFFER_END {
            self.buffer[offset]
        } else if offset == TERM_CURSOR_X {
            self.cursor.0
        } else if offset == TERM_CURSOR_Y {
            self.cursor.1
        } else if offset == TERM_FLAGS {
            self.flags
        } else {
            0
        }
    }

    /// Sets the register at `offset`; a write to the command register
    /// carries out the command.
    fn write(&mut self, offset: usize, value: u8)
        ensures
            final(self).state() == state_after_write(old(self).state(), offset, value),
            final(self).pending() == with_effect(
                old(self).pending(),
                effect_of_write(old(self).state(), offset, value),
            ),
    {
        if offset <= TERM_BUFFER_END {
            self.buffer[offset] = value;
        } else if offset == TERM_CURSOR_X {
            self.cursor.0 = value;
        } else if offset == TERM_CURSOR_Y {
            self.cursor.1 = value;
        } else if offset == TERM_COMMAND {
            self.execute_command(value);
        } else if offset == TERM_FLAGS {
            self.flags = value;
        }
    }
}

} // verus!
