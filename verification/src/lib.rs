//! An interactive command interpreter's core: splitting a line into pipeline
//! stages and deciding, step by step, what running the pipeline takes.

pub mod text;
pub mod splitter;
pub mod executor;
pub mod split_laws;
pub mod run_laws;
pub mod history;
pub mod lookup;
pub mod input;
pub mod widgets;
pub mod screen;
