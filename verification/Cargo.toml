[package]
name = "point_in_map"
version = "0.1.0"
edition = "2021"
publish = false

[dependencies]
ark-bn254 = "=0.6.0"
ark-ec = "=0.6.0"
ark-ff = "=0.6.0"
ark-groth16 = "=0.6.0"
ark-crypto-primitives = { version = "=0.6.0", features = ["sponge", "snark", "constraints"] }
ark-r1cs-std = "=0.6.0"
ark-relations = "=0.6.0"
ark-serialize = "=0.6.0"
ark-std = "=0.6.0"
base64 = "=0.23.1"
h3o = "=0.11.0"
actix-web = "=4.15.0"
serde = { version = "=1.0.229", features = ["derive"] }
serde_json = "=1.0.151"
clap = { version = "=4.6.7", features = ["derive"] }
anyhow = "=1.0.104"
