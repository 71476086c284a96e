[package]
name = "mdns-dns-proxy"
version = "0.1.0"
edition = "2021"
publish = false

[dependencies]
async-trait = "0.1"
clap = { version = "4", features = ["derive", "env"] }
hickory-proto = "0.25"
hickory-server = "0.25"
mdns-sd = "*"
serde = { version = "1", features = ["derive"] }
tokio = { version = "1", features = ["macros", "net", "rt-multi-thread", "time"] }
toml = "*"
tracing = "0.1"
tracing-subscriber = "0.3"
