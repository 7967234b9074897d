//! A compiler for a tape language of eight symbols, extended with procedures that
//! the program names by a character.
//!
//! The stages, in order:
//!
//! - [`lexer`] folds the source characters into a flat list of [`op::Op`] values;
//! - [`codegen`] walks that list once and builds a [`ir::Unit`]: functions made of
//!   blocks, blocks made of steps on the tape;
//! - [`plan`] writes the unit out as the list of requests that build it in LLVM;
//! - [`backend`] hands those requests to LLVM, one call each.
//!
//! [`compile`] runs the first two stages. [`machine`] says what a unit does when
//! it runs, and can run it.

pub mod backend;
pub mod codegen;
pub mod compile;
pub mod ir;
pub mod lexer;
mod llvm;
pub mod machine;
pub mod op;
pub mod plan;
