//! Line-level parser for an indentation-sensitive language: indentation,
//! character classification, atomic tokens and bracketed sub-expressions,
//! each parsed unit stamped with its exact source span.

pub mod ast;
pub mod grammar;
pub mod parser;
pub mod stream;
pub mod symbol;
pub mod theorems;
pub mod unit;

pub use parser::Parser;
