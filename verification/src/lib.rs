//! A small embeddable bytecode virtual machine and the emitter for its bytecode.
//!
//! A program is a run of instructions behind a header. The machine loads it
//! into a flat memory pool and executes it against a stack of values and a
//! stack of return addresses. A program reaches its host through extern
//! calls, which an extern map serves.
//!
//! - `options`, `pointer`, `header_format_doc`, `version_adapters`: the
//!   header and the pointers of the bytecode.
//! - `byte_id`, `compile`, `vmenv`, `fmt`: instructions, their bytecode and
//!   their text.
//! - `machine`, `vm`, `laws`: what the machine does, the machine itself,
//!   and what holds of every program.
//! - `ivm_ext_x32`, `security`: the extern calls for output, and the guards
//!   that decide which extern calls may pass.
//! - `ir`, `declare`, `token`, `debug`, `cli`: the model of the
//!   intermediate representation, declaring a program, the tokens of the
//!   scripting language, and the actions of the command line.

pub mod byte_id;
pub mod cli;
pub mod compile;
pub mod debug;
pub mod declare;
pub mod fmt;
pub mod header_format_doc;
pub mod ir;
pub mod ivm_ext_x32;
pub mod laws;
pub mod machine;
pub mod options;
pub mod pointer;
pub mod security;
pub mod token;
pub mod version_adapters;
pub mod vm;
pub mod vmenv;
