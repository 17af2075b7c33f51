//! Front end of a small configuration language.
//!
//! The core of this crate is the abstraction stage: the transform that lowers
//! a fully parsed, span-annotated concrete syntax tree into the simplified
//! abstract syntax tree that evaluation and rendering consume. Around it sit
//! the data models of both trees, the string unescaper, and the parser for
//! the command line of the hosting tool.

pub mod abstraction;
pub mod ast;
pub mod cli;
pub mod cst;
pub mod error;
pub mod laws;
pub mod literals;
pub mod source;
pub mod string;
