//! Error detection, context building and patch handling for a terminal
//! assistant that watches build and test output.
pub mod ai;
pub mod context;
pub mod errors;
pub mod hook;
pub mod pipeline;
pub mod pty;
pub mod text;
pub mod tui;
