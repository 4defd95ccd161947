//! A small templating language: source files declare named, parameterized
//! text blocks that can reference and nest one another, substitute
//! arguments, propagate indentation into multi-line content, and optionally
//! be exported, either to a file or back into the library as further source.
//!
//! The pipeline: source text is scanned by the lexer into content spans and
//! command spans (`lexer`), command spans are parsed by the command grammar
//! (`grammar`), the resulting component stream is assembled into validated
//! blocks (`builder`), and blocks are rendered recursively against a library
//! of all known blocks (`render`, `library`).

pub mod ast;
pub mod builder;
pub mod grammar;
pub mod laws;
pub mod lexer;
pub mod library;
pub mod render;
pub mod text;
