//! A verified CHIP-8 interpreter.
//!
//! The library owns the machine state (memory, registers, call stack, timers,
//! keyboard flags and the packed monochrome framebuffer), the opcode decoder
//! and the execution engine.  Every instruction of the CHIP-8 set is given an
//! exact transition semantics as a specification function, and `step` is
//! proved to implement it.  Window handling, file reading and the host's
//! random-byte source live outside the library and talk to it through plain
//! values.

pub mod chip8;
pub mod display;
pub mod instr;
pub mod laws;
pub mod opcode;
