//! A verified CHIP-8 interpreter core: addressable memory with the built-in
//! glyph table, a structural opcode decoder, the register file, the 60 Hz
//! timer pair, the XOR-draw framebuffer, and the fetch-decode-execute cycle.
//!
//! The host (windowing, key mapping, rendering) lives outside this crate and
//! talks to the interpreter through plain values: ROM bytes in, pixel states
//! out, one pending key at a time.

pub mod display;
pub mod emulator;
pub mod error;
pub mod keypad;
pub mod memory;
pub mod registers;
pub mod timers;
