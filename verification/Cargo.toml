[package]
name = "chess_pgn_parser"
version = "0.1.0"
edition = "2021"
publish = false

[dependencies]
tanton = "=1.0.0"
anyhow = "=1.0.104"
clap = { version = "=4.6.7", features = ["derive"] }
glob = "=0.3.4"
serde = { version = "=1.0.229", features = ["derive"] }
serde_yaml = "=0.9.34"
log = "=0.4.34"
env_logger = "=0.11.11"
regex = "=1.13.1"
lazy_static = "=1.5.1"
thiserror = "=2.0.21"
tokio = { version = "1", features = ["rt", "rt-multi-thread", "sync", "time"] }
tokio-stream = "0.1"
downcast-rs = "*"
fxhash = "*"
libremarkable = "*"
