//! A verified CHIP-8 virtual machine core.
//!
//! The library models the classic CHIP-8 interpreter: a 4096-byte memory
//! with a built-in font table, sixteen 8-bit registers plus a 12-bit index
//! register, a 16-entry call stack, two 8-bit countdown timers, a 16-key
//! keypad, and a 64x32 monochrome framebuffer driven by XOR sprite drawing.
//! Every instruction's effect on that state is stated as a specification
//! and the executable dispatcher is proved against it.
//!
//! - [`instr`] decodes 16-bit instruction words into a flat opcode table
//!   and defines the fatal error taxonomy.
//! - [`chip8`] holds the hardware bundle: RAM, framebuffer, timers, keypad,
//!   and the whole machine `Chip_HW`.
//! - [`cpu`] holds the register file and the fetch-decode-execute engine,
//!   proved to implement the mathematical step function `spec_step`.
//! - [`draw`] gives the XOR sprite compositor as a pure function.
//! - [`laws`] proves the machine-wide guarantees: unknown opcodes are
//!   fatal, drawing twice self-erases, `CALL`/`RET` round-trips, the
//!   parked key wait is faithful, and block transfers round-trip.

pub mod chip8;
pub mod cpu;
pub mod draw;
pub mod instr;
pub mod laws;
