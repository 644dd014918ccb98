pub mod ast;
pub mod lexer;
pub mod token;
