//! A small scripting-language toolchain: a lexer that turns source text into
//! tokens, a recursive-descent parser that builds an abstract syntax tree,
//! an evaluator that reduces arithmetic trees to a 32-bit integer, and a
//! code generator that lowers a tree to C source text.

pub mod ast;
pub mod compiler;
pub mod lexer;
pub mod parser;
pub mod props;
pub mod text;
pub mod types;
