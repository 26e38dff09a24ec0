//! Front end of a compiler for a stack-based, statically-typed language:
//! a Unicode-aware lexical scanner, the abstract-syntax/type data model,
//! the error taxonomy, the module-graph driver with its type-parameter
//! instantiation registry, and a structural dump renderer used as a test
//! oracle.

pub mod chars;
pub mod decimal;
pub mod location;
pub mod token;
pub mod ast;
pub mod errors;
pub mod lex;
pub mod compiler;
pub mod twist;
pub mod ast_twist;
