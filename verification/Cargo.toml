[package]
name = "locutus_stdlib"
version = "0.1.0"
edition = "2021"
publish = false

[dependencies]
arbitrary = { version = "=1.5.0", features = ["derive"] }
bincode = "=1.3.3"
blake2 = "=0.10.6"
bs58 = "=0.4.0"
byteorder = "=1.5.0"
log = "0.4"
rmpv = "=1.3.1"
serde = { version = "=1.0.229", features = ["derive"] }
serde_with = "=2.3.3"
thiserror = "=1.0.69"

[dev-dependencies]
rand = { version = "=0.8.8", features = ["small_rng"] }
