//! Instruction-execution core of a cycle-accurate emulator for a dual-CPU
//! ARM-family handheld console.
//!
//! The crate covers four components: the opcode decode table that maps a
//! 12-bit dispatch key to exactly one handler, the execution engine that
//! reproduces instruction semantics together with the two-stage prefetch
//! pipeline, the cycle-accurate event scheduler, and the timer subsystem
//! that reacts to scheduled overflow events and register writes.

pub mod alu;
pub mod cpu;
pub mod decode;
pub mod mem;
pub mod regs;
pub mod scheduler;
pub mod timers;
