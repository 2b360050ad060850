[package]
name = "sp1_to_snarkjs"
version = "0.1.0"
edition = "2021"
publish = false

[dependencies]
ark-bn254 = "=0.5.0"
ark-ec = "=0.5.0"
ark-ff = "=0.5.0"
ark-groth16 = "=0.5.0"
ark-serialize = "=0.5.0"
ark-snark = "=0.5.1"
hex = "=0.4.3"
serde = { version = "=1.0.229", features = ["derive"] }
serde_json = "=1.0.154"
bincode = "=1.3.3"
sp1-verifier = { version = "=6.3.1", features = ["ark"] }
slop-algebra = "=6.3.1"
sp1-primitives = "=6.3.1"
thiserror = "=2.0.21"
anyhow = "=1.0.104"
clap = { version = "=4.6.7", features = ["derive"] }
