//! A simple tokenizer for the form of the language with layers, references, data and
//! modules, with numbers as tokens of their own.
pub mod token;
pub mod tokenizer;
