//! Devices that can be mapped into the address space of the machine.
use vstd::prelude::*;

pub mod keyboard;
pub mod screen;
pub mod terminal;

verus! {

/// A device behind the bus: a byte can be read and written at each offset
/// of the range that the device was registered with. What a device answers
/// and what a write does to it is its own affair.
pub trait Device {
    /// Reads the byte at `offset`.
    fn read(&self, offset: usize) -> u8;

    /// Writes `value` at `offset`.
    fn write(&mut self, offset: usize, value: u8);
}

} // verus!
