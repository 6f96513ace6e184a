[package]
name = "shadowmem"
version = "0.1.0"
edition = "2021"
publish = false

[dependencies]
ethereum-types = "*"
parity-bytes = "*"
rlp = "*"
rustc-hex = "*"
docopt = "*"
env_logger = "*"
serde = { version = "*", features = ["derive"] }
serde_json = "*"
syn = "*"
quote = "*"
proc-macro2 = "*"
