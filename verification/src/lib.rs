//! A CHIP-8 processor core: a decoder turning 16-bit big-endian opcodes into a
//! closed instruction set, and an execution engine that interprets each
//! instruction against an in-memory machine state (registers, RAM, a call
//! stack, a monochrome framebuffer, two countdown timers, and a 16-key pad).

pub mod isa;
pub mod laws;
pub mod machine;
