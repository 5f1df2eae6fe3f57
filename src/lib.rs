//! The command-pipeline core of a small interactive shell: tokenizing a line
//! into pipeline segments, recognising builtins, and sequencing the spawn and
//! wait steps of an external pipeline.

pub mod text;
pub mod command;
pub mod builtin;
pub mod pipeline;
