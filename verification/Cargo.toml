[package]
name = "fri_proofs"
version = "0.1.0"
edition = "2021"
publish = false

[dependencies]
blake3 = { version = "1", default-features = false, features = ["pure"] }
ff = { version = "0.13", default-features = false, features = ["std", "derive"] }
primitive-types = { version = "0.12", default-features = false, features = ["std"] }
