//! # one_hash
//!
//! A 1# (one-hash) language interpreter and assembler.
//!
//! The 1# language is a minimal Text Register Machine with only two symbols:
//! `1` (one) and `#` (hash). Despite this simplicity, it is Turing-complete.
//!
//! ## Language Overview
//!
//! ### Instructions
//! All instructions follow the pattern `1^n` followed by 1-5 `#` symbols:
//!
//! | Instruction | Encoding | Effect |
//! |-------------|----------|--------|
//! | AddOne(n) | `1^n#` | Append '1' to register n |
//! | AddHash(n) | `1^n##` | Append '#' to register n |
//! | Forward(n) | `1^n###` | Jump forward n instructions |
//! | Backward(n) | `1^n####` | Jump backward n instructions |
//! | Case(n) | `1^n#####` | Branch on first symbol of register n |
//!
//! ### Data Encoding
//! Numbers are encoded in "backwards binary": the least significant bit
//! comes first, `1` is binary 1 and `#` is binary 0. Example: `#11` = 6.
//!
//! ## Modules
//!
//! - [`types`] - Core types (Symbol, Word)
//! - [`instruction`] - Instruction definitions
//! - [`parser`] - 1# program parser
//! - [`machine`] - Virtual machine
//! - [`assembler`] - Assembly language compiler
//! - [`text`] - Character-level text processing
pub mod assembler;
pub mod instruction;
pub mod machine;
pub mod parser;
pub mod repl;
pub mod text;
pub mod types;

pub use assembler::macros::UserMacro;
pub use assembler::{
    assemble, compile, expand_macros, expand_only, reset_label_counter, LabelCounter,
};
pub use instruction::{program_to_one_hash, Instruction};
pub use machine::{Machine, RunResult, StepResult};
pub use parser::parse_program;
pub use types::{format_word, string_to_word, word_to_decimal, word_to_string, Symbol, Word};
