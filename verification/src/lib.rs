//! A small native-process debugger core: software breakpoints installed by
//! byte-patching a traced child's memory, transparent single-stepping over
//! them, a breakpoint table that survives restarts, and a bounded
//! frame-pointer stack walk.

pub mod breakpoint;
pub mod debugger;
pub mod diff;
pub mod grid;
pub mod hangman;
pub mod inferior;
pub mod lcs;
pub mod parse;
pub mod status;
pub mod symbols;
pub mod trace;
pub mod walk;
pub mod warmup;
pub mod word;
