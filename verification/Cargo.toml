[package]
name = "song_sync"
version = "0.1.0"
edition = "2021"
publish = false

[dependencies]
thiserror = "1"
tokio = { version = "1", features = ["macros", "process", "rt-multi-thread"] }
