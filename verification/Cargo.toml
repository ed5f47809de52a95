[package]
name = "portscan"
version = "0.1.0"
edition = "2021"
publish = false

[dependencies]
regex = "1"
toml = "0.8"
tokio = { version = "1", features = ["rt-multi-thread", "macros", "net", "time", "io-util"] }
clap = { version = "4", features = ["derive"] }
async-trait = "0.1"
