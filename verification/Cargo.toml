[package]
name = "rln"
version = "0.1.0"
edition = "2021"
publish = false

[dependencies]
ark-bn254 = "=0.6.0"
ark-circom = "=0.6.0"
ark-ec = "=0.6.0"
ark-ff = "=0.6.0"
ark-groth16 = "=0.6.0"
ark-relations = "=0.6.0"
ark-serialize = "=0.6.0"
ark-std = "=0.6.0"
cfg-if = "=1.0.5"
color-eyre = "=0.6.5"
ff_ce = "=0.11.0"
hex = "=0.4.3"
num-bigint = "=0.4.8"
num-traits = "=0.2.19"
once_cell = "=1.21.4"
poseidon-rs = "=0.0.10"
rand = "=0.8.8"
rand_chacha = "=0.3.1"
serde = { version = "=1.0.229", features = ["derive"] }
serde_json = "=1.0.154"
sha2 = "=0.10.9"
thiserror = "=2.0.21"
tiny-keccak = { version = "=2.0.2", features = ["keccak"] }
