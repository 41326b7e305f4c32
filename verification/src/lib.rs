//! A CHIP-8 virtual machine with machine-checked contracts.
//!
//! - `opcode` splits an instruction word into its fields and `instruction`
//!   says which instruction a word encodes.
//! - `machine` is the mathematical model: the state of a machine and what
//!   each instruction, step and cycle makes of it.
//! - `chip` is the machine that runs: every function of it is proved to do
//!   what the model says.
//! - `laws` holds what follows for every program.
//! - `fault` names the conditions that halt a machine, `font` holds the
//!   built-in glyphs.
//! - `keypad` and `display` are the machine's side of the host's keyboard
//!   and canvas.

pub mod chip;
pub mod display;
pub mod fault;
pub mod font;
pub mod instruction;
pub mod keypad;
pub mod laws;
pub mod machine;
pub mod opcode;
