[package]
name = "serialwarp"
version = "0.1.0"
edition = "2021"
publish = false

[dependencies]
crc32c = "*"
anyhow = "*"
async-trait = "*"
clap = { version = "*", features = ["derive"] }
nusb = "*"
tokio = { version = "*", features = ["rt-multi-thread", "macros", "sync", "time"] }
