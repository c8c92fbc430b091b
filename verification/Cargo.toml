[package]
name = "lighthouse_proofs"
version = "0.1.0"
edition = "2021"
publish = false

[dependencies]
rand = "0.9"
ssz_types = "*"
tree_hash = "*"
serde = { version = "1", features = ["derive"] }
thiserror = "2"
parking_lot = "0.12"
tokio = { version = "1", features = ["sync", "time", "rt", "macros"] }
async-trait = "0.1"
lru = "*"
