//! Instruction execution core of a CHIP-8-style virtual CPU: a fetch-decode-execute
//! engine over a fixed memory image, a bank of 8-bit registers, and a bounded call
//! stack, together with the pure codec that splits 16-bit instruction words into
//! bytes and nibbles.

pub mod codec;
pub mod cpu;
