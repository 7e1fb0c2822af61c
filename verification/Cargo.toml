[package]
name = "nilla"
version = "0.1.0"
edition = "2021"
publish = false

[dependencies]
anyhow = "=1.0.104"
cargo-util = "=0.2.14"
clap = { version = "=4.6.7", features = ["derive"] }
clap_complete = "=4.6.11"
clio = { version = "=0.3.5", features = ["clap-parse"] }
colored = "=3.1.1"
fern = "=0.7.1"
log = "=0.4.34"
prettytable-rs = "=0.10.0"
serde = { version = "=1.0.229", features = ["derive"] }
serde_json = "=1.0.151"
tokio = { version = "=1.53.2", features = ["macros", "process", "rt-multi-thread"] }
which = "=8.0.6"
