[package]
name = "evm_bloomer"
version = "0.1.0"
edition = "2021"
publish = false

[dependencies]
alloy = { version = "1.0", default-features = false, features = ["network", "providers", "provider-http", "rpc-types", "reqwest"] }
bit-vec = "*"
clap = { version = "4", default-features = false, features = ["std", "derive", "help", "usage"] }
eyre = "0.6"
futures = { version = "0.3", default-features = false, features = ["std"] }
hex = "0.4"
rand = "0.9"
serde = { version = "1", features = ["derive"] }
serde_json = "1"
tokio = { version = "1", features = ["macros", "rt-multi-thread", "time"] }
walkdir = "2"
