[package]
name = "bds_sim_tx"
version = "0.1.0"
edition = "2021"
publish = false

[dependencies]
indicatif = "0.17"
num-complex = "0.4"
rayon = "1"
serde_json = "1"
