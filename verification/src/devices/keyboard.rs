//! The registers of the keyboard: a flag that says whether keys wait to be
//! read, and the oldest key that waits.
use std::collections::VecDeque;
use vstd::prelude::*;

verus! {

/// The flag of a keyboard that holds no key.
pub const BUFFER_EMPTY: u8 = 0;

/// The flag of a keyboard that holds keys.
pub const BUFFER_NOT_EMPTY: u8 = 1;

/// The offset of the flag.
pub const KEYBOARD_FLAGS: usize = 0;

/// The offset of the register that hands out the keys.
pub const KEYBOARD_KEY: usize = 1;

/// The keys that wait to be read, and the flag.
#[derive(Clone)]
pub struct InnerKeyboard {
    buffer: VecDeque<u8>,
    flags: u8,
}

impl InnerKeyboard {
    /// The keys that wait to be read, oldest first.
    pub closed spec fn keys(&self) -> Seq<u8> {
        self.buffer@
    }

    /// The flag.
    pub closed spec fn flag(&self) -> u8 {
        self.flags
    }

    /// A keyboard that holds no key.
    pub fn new() -> (keyboard: Self)
        ensures
            keyboard.keys() == Seq::<u8>::empty(),
            keyboard.flag() == BUFFER_EMPTY,
    {
        Self { buffer: VecDeque::new(), flags: BUFFER_EMPTY }
    }

    /// Takes note that the key `c` was pressed: the key is queued twice and
    /// the flag says that keys wait.
    pub fn key_pressed(&mut self, c: u8)
        ensures
            final(self).keys() == old(self).keys().push(c).push(c),
            final(self).flag() == BUFFER_NOT_EMPTY,
    {
        self.buffer.push_back(c);
        self.flags = BUFFER_NOT_EMPTY;
        self.buffer.push_back(c);
    }

    /// The byte that a read at `offset` answers: the flag at offset 0, the
    /// oldest key at offset 1, or zero if no key waits, and zero elsewhere.
    pub open spec fn answer(&self, offset: usize) -> u8 {
        if offset == KEYBOARD_FLAGS {
            self.flag()
        } else if offset == KEYBOARD_KEY && self.keys().len() > 0 {
            self.keys()[0]
        } else {
            0
        }
    }

    /// Reads the register at `offset`. Reading a key takes it from the
    /// queue, and the flag is cleared with the last key.
    pub fn read(&mut self, offset: usize) -> (value: u8)
        ensures
            value == old(self).answer(offset),
            final(self).keys() == if offset == KEYBOARD_KEY && old(self).keys().len() > 0 {
                old(self).keys().drop_first()
            } else {
                old(self).keys()
            },
            final(self).flag() == if offset == KEYBOARD_KEY && old(self).keys().len() == 1 {
                BUFFER_EMPTY
            } else {
                old(self).flag()
            },
    {
        if offset == KEYBOARD_FLAGS {
            self.flags
        } else if offset == KEYBOARD_KEY {
            match self.buffer.pop_front() {
                Some(c) => {
                    if self.buffer.len() == 0 {
                        self.flags = BUFFER_EMPTY;
                    }
                    assert(self.keys() =~= old(self).keys().drop_first());
                    c
                },
                None => 0,
            }
        } else {
            0
        }
    }

    /// A write to the keyboard does nothing.
    pub fn write(&mut self, offset: usize, value: u8)
        ensures
            *final(self) == *old(self),
    {
    }
}

} // verus!
