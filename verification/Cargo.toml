[package]
name = "splash"
version = "0.1.0"
edition = "2021"
publish = false

[dependencies]
bech32 = "=0.9.1"
bs58 = "=0.5.1"
chia-protocol = "=0.13.0"
chia-puzzles = "=0.13.0"
chia-sdk-driver = "=0.16.0"
chia-traits = "=0.11.0"
clvm-traits = "=0.13.0"
clvmr = "=0.8.0"
flate2 = { version = "=1.1.10", default-features = false, features = ["zlib-rs"] }
futures = "=0.3.34"
hex = "=0.4.3"
indexmap = "=2.14.2"
lazy_static = "=1.5.1"
libp2p = { version = "0.54", features = ["gossipsub", "identify", "kad", "macros", "noise", "tcp", "tokio", "yamux"] }
serde = { version = "=1.0.229", features = ["derive"] }
serde_json = "=1.0.154"
tokio = { version = "=1.54.1", features = ["macros", "rt-multi-thread", "sync"] }

[dev-dependencies]
chia-bls = "=0.13.0"
clvm-utils = "=0.13.0"
