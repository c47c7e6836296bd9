//! An interpreter for the CHIP-8 virtual machine, with its instruction
//! semantics stated as specifications and proved.
pub mod chip8;
pub mod common;
pub mod instruction;
pub mod lemmas;
pub mod model;
