//! A small interactive shell: tokenizing command lines, deciding what a line
//! asks for, and keeping the status that the prompt shows.
pub mod builtin;
pub mod config;
pub mod exec;
pub mod parse;
pub mod shell;
pub mod status;
pub mod text;
