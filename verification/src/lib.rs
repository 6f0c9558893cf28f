//! A CHIP-8 virtual machine and a small compiler that targets it.
//!
//! The emulator half executes CHIP-8 programs one instruction at a time:
//! `machine` is the mathematical model of the machine and `machine_laws`
//! holds what is proved of it; `cpu`, `display` and `keyboard` are the
//! executable machine, and `driver` advances it by one frame on behalf of a
//! host that owns the window and the clock.
//!
//! The compiler half lowers a Python-flavoured source language to CHIP-8
//! machine code that the emulator loads at address `0x200`: `parser` turns
//! text into the syntax tree of `ir`, and `backends` turns the tree into
//! code. `error`, `span`, `text` and `output` serve both.
//!
//! Every executable function carries a contract over a mathematical model of
//! the state it touches, and the contracts are machine-checked.

pub mod backends;
pub mod constants;
pub mod cpu;
pub mod display;
pub mod driver;
pub mod error;
pub mod ir;
pub mod keyboard;
pub mod machine;
pub mod machine_laws;
pub mod output;
pub mod parser;
pub mod span;
pub mod text;
