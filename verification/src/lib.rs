//! Core of a terminal-style portfolio shell: tokenizing input lines,
//! dispatching commands, a read-only virtual filesystem with path
//! resolution, tab completion, command history, and small turn-based
//! games that take over input while active.
//!
//! The crate is pure logic: rendering, the host clock, and the host's
//! random source live outside and are passed in as plain values.

pub mod builder;
pub mod commands;
pub mod completion;
pub mod content;
pub mod games;
pub mod registry;
pub mod session;
pub mod vfs;
pub mod output;
pub mod text;
pub mod theme;
pub mod tokenizer;
