[package]
name = "plonk-core"
version = "0.1.0"
edition = "2021"
publish = false

[dependencies]
ark-bls12-381 = "0.3"
ark-ec = "0.3"
ark-ff = "0.3"
ark-poly = "0.3"
ark-poly-commit = "0.3"
ark-serialize = "0.3"
derivative = "2.2"
hashbrown = "0.11"
merlin = "3.0"
num-traits = "0.2"
rand_core = { version = "0.6", features = ["getrandom"] }
