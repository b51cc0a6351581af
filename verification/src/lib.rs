//! Batch song download bookkeeping: the record format, the two ledgers,
//! the download command and the fan-out/fan-in orchestrator, and the
//! commands that bring the songs onto a paired device.

pub mod common;
pub mod ios;
pub mod youtube;
