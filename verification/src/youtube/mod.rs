//! Song records, their text format, the download task and the batch run.

pub mod downloader;
pub mod filesystem;
pub mod ledgers;
pub mod orchestrator;
pub mod round_trip;
pub mod song;
