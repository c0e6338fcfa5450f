//! A CHIP-8 virtual machine: a 4KB-addressable 8-bit CPU with sixteen
//! general registers, a sixteen-slot call stack, two countdown timers, a
//! monochrome 64x32 framebuffer and a sixteen-key input latch.
//!
//! The decode/execute engine and the machine state it mutates live in
//! [`vm`]; the instruction set and its decoder in [`isa`]; the transition
//! relation of each instruction in [`step`]; machine-wide laws proved over
//! those relations in [`laws`]; and read-only diagnostic dumps in [`diag`].

pub mod diag;
pub mod isa;
pub mod laws;
pub mod step;
pub mod vm;
