[package]
name = "perma_data"
version = "0.1.0"
edition = "2021"
publish = false

[dependencies]
sp-runtime = "*"
sp-core = "*"
sp-database = "*"
kvdb-memorydb = "*"
parking_lot = "*"
jsonrpc-core = "*"
parity-scale-codec = { version = "*", features = ["derive"] }
derive_more = { version = "*", features = ["display", "from"] }
log = "*"
