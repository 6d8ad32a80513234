//! An assembler for a small 8-bit toy processor: mnemonic source text is
//! parsed into statements, labels are resolved to instruction addresses, and
//! each non-label statement is encoded into one instruction byte.
//!
//! A Calculate statement is its operator mnemonic alone (`ADD`, `NOR`, ...):
//! it names no target register, and its byte is the operator index with the
//! class tag 1 in bits 6 and 7.

pub mod isa;
pub mod lexer;
pub mod parser;
pub mod resolve;
pub mod codegen;
pub mod listing;
pub mod laws;
