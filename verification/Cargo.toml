[package]
name = "quantum_launcher"
version = "0.4.2"
edition = "2021"
publish = false

[dependencies]
chrono = "=0.4.45"
any_ascii = "=0.3.3"
urlencoding = "=2.1.3"
colored = "=2.2.0"
owo-colors = "=4.4.0"
serde = { version = "=1.0.229", features = ["derive"] }
serde_json = "=1.0.154"
quick-xml = { version = "=0.37.5", features = ["serialize"] }
clap = "=4.6.7"
terminal_size = "=0.4.4"
dirs = "=5.0.1"
tokio = { version = "=1.54.1", features = ["fs", "rt-multi-thread", "macros", "process", "io-util"] }
lzma-rs = "=0.3.0"
rust-ini = "*"
