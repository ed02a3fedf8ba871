[package]
name = "ffmpeg_stats"
version = "0.1.0"
edition = "2021"
publish = false

[dependencies]
serde_json = "=1.0.154"
tokio = { version = "1", features = ["net", "rt-multi-thread", "macros", "io-util"] }
