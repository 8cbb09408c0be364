//! A process invocation core: command requests, pipelines, line streaming and
//! the classification of results, kept free of any operating-system call so
//! that every rule can be stated and proved.

pub mod command;
pub mod handle;
pub mod lines;
pub mod outcome;
pub mod pipeline;
pub mod stream;
pub mod text;
