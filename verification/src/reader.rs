pub mod config;
pub mod events;
pub mod lexer;
pub mod parser;
