//! Core of a debugger front-end for an 8-bit CPU emulator: a routed address
//! space with memory-mapped devices, a packed-pixel display, disassembly
//! listings with exact address accounting, breakpoints, register editing and
//! the step/run/halt controller.
pub mod breakpoints;
pub mod control;
pub mod disasm;
pub mod display;
pub mod editor;
pub mod error;
pub mod hex;
pub mod memory;
pub mod registers;
