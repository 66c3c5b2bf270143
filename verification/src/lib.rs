//! Core of a retargetable assembler for small instruction sets: source
//! positions, the lexer and the parser, backend descriptors, the resolver
//! with its encoders, and the bookkeeping of a language-server session.

pub mod assembler;
pub mod backends;
pub mod compile;
pub mod keywords;
pub mod layout;
pub mod lexer;
pub mod parser;
pub mod session;
pub mod span;
pub mod text;
pub mod token;
