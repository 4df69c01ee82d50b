//! A CHIP-8 virtual machine with a reversible, snapshot-based debugger.
//!
//! The crate models the classic CHIP-8 architecture: 4096 bytes of memory,
//! sixteen 8-bit registers, a 12-bit index register, a 64x32 monochrome
//! framebuffer, and a sixteen-entry call stack.  Programs are stepped one
//! fetch-decode-execute cycle at a time; every cycle is specified against a
//! mathematical model of the machine state, and the debugger keeps an
//! append-only history of snapshots so execution can be replayed backwards.

pub mod architecture;
pub mod base;
pub mod command;
pub mod debugger;
pub mod emulator;
pub mod font;
pub mod language;
pub mod laws;
pub mod parser;
pub mod text;
mod rng;
