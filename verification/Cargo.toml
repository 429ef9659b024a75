[package]
name = "qlaster"
version = "0.1.0"
edition = "2021"
publish = false

[dependencies]
arc-swap = "=1.9.3"
bytes = "=1.12.1"
crossbeam-queue = "=0.3.14"
libc = "=0.2.191"
lz4_flex = "=0.14.0"
shaq = "=4.0.0"
solana-bloom = "=3.1.14"
solana-pubkey = { version = "=4.4.0", features = ["std"] }
thiserror = "=2.0.21"
tokio = { version = "=1.54.1", features = ["net", "sync", "rt", "rt-multi-thread", "io-util", "macros", "time"] }
tracing = "=0.1.44"
wincode = { version = "=0.6.3", features = ["derive"] }
