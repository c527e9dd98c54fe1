[package]
name = "fallback_post"
version = "0.1.0"
edition = "2021"
publish = false

[dependencies]
storage-proofs-core = { version = "19", default-features = false }
filecoin-hashers = { version = "*", default-features = false, features = ["poseidon", "sha256"] }
sha2 = "=0.9.9"
byteorder = "=1.5.0"
generic-array = "=0.14.9"
rayon = "=1.12.0"
serde = { version = "=1.0.229", features = ["derive"] }
serde_json = "=1.0.154"
anyhow = "=1.0.104"
log = "=0.4.34"

[dev-dependencies]
rand = "0.8"
rand_xorshift = "0.3"
tempfile = "=3.27.0"
