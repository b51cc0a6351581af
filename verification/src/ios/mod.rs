//! The device side: the commands that check the service, pair and mount the
//! device and move the songs, and what their outcomes mean.

pub mod filesystem;
pub mod mounting;
pub mod pairing;
pub mod service;
