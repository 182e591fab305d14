//! Jitter: the front end of a small Rust-like scripting language, written so
//! that each stage (lexing, parsing, validation) states what it computes.
#![allow(non_camel_case_types)]

pub mod span;
pub mod text;

pub use span::Span;
pub mod frontend;
pub mod backend;
pub mod assoc;
pub mod extension;
pub mod arithmetic;
