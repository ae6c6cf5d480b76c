//! A small 16-bit virtual machine: instruction codec, assembler, CPU core and
//! byte-addressable memory with memory-mapped devices.
pub mod assembler;
pub mod devices;
pub mod execution;
pub mod machine;
pub mod memory;
pub mod mmio;
pub mod text;
