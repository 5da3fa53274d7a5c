[package]
name = "aincrad"
version = "0.1.0"
edition = "2021"
publish = false

[dependencies]
anyhow = "1"
aya = "0.13"
aya-ebpf = "0.1"
chrono = "0.4"
tokio = { version = "1", features = ["macros", "rt-multi-thread", "time", "signal"] }
raylib = "*"
