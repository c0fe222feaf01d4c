[package]
name = "snarkpack"
version = "0.1.0"
edition = "2021"
publish = false

[dependencies]
ark-bls12-381 = "*"
ark-ec = "*"
ark-ff = "*"
ark-groth16 = "*"
ark-serialize = "*"
ark-std = "*"
merlin = "3"

[dev-dependencies]
rand_chacha = "*"
rand_core = "*"
