[package]
name = "llama_rs"
version = "0.1.0"
edition = "2021"
publish = false

[dependencies]
memmap2 = "0.9"
half = "2"
rayon = "1"
fastrand = "2"
thiserror = "1"
anyhow = "1"
clap = { version = "4", features = ["derive"] }
axum = "0.7"
tokio = { version = "1", features = ["macros", "rt-multi-thread", "net"] }
serde = { version = "1", features = ["derive"] }
tracing = "0.1"
tracing-subscriber = { version = "0.3", features = ["env-filter"] }
bytemuck = "1"
