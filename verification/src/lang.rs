//! The declaration language: syntax records, resolved types and the
//! resolver between them.

pub mod ast;
pub mod ast_builder;
pub mod cst;
pub mod internal;
