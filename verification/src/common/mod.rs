//! Shared building blocks: text scanning, commands to run, file steps, and
//! the fixed names and paths.

pub mod command;
pub mod constants;
pub mod files;
pub mod text;
