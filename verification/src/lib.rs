//! Save inventory and transfer engine for a single game's save directory.
//!
//! The crate holds the decision logic only: statistics over a directory walk,
//! the terminal output coalescer, the progress bar, the copy and delete jobs,
//! and positional addressing into the ordered save list. The caller performs
//! the file-system and terminal work that these values describe.

pub mod commands;
pub mod config;
pub mod session;
pub mod text;
pub mod transfer;
pub mod ui;
pub mod utils;
