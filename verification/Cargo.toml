[package]
name = "srt_translate"
version = "0.1.0"
edition = "2021"
publish = false

[dependencies]
clap = { version = "=4.6.7", features = ["derive"] }
env_logger = "=0.11.11"
indicatif = "=0.18.6"
log = "=0.4.34"
rig-core = "=0.31.0"
srtlib = "=0.2.0"
tokio = { version = "=1.54.1", features = ["macros", "rt-multi-thread", "time"] }
