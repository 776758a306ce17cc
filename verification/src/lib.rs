//! SysDC: a language for describing the design of a software system, with
//! its tokenizer, parser and checker.
pub mod text;
pub mod lang;
pub mod compiler;
pub mod tokenize;
pub mod plugin;
pub mod cli;
pub mod command;
pub mod tool;
