//! A small interactive shell: tokenizing, expansion, parsing of pipelines
//! with redirections, and the decisions of its builtins, job table and
//! process launching, each with a contract over character sequences.

pub mod text;
pub mod builtins;
pub mod lexer;
pub mod command;
pub mod parser;
pub mod tilde;
pub mod env_expand;
pub mod path_search;
pub mod shell;
pub mod exec;
pub mod grammar;
