[package]
name = "abi_derive"
version = "0.1.0"
edition = "2021"
publish = false

[dependencies]
byteorder = "1.2"
parity-hash = "1.2"
proc-macro2 = "1"
pwasm-abi = "*"
pwasm-ethereum = "*"
serde = { version = "1", features = ["derive"] }
serde_json = "1"
tiny-keccak = "1.4"
