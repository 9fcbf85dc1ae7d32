[package]
name = "quartic_r1cs"
version = "0.1.0"
edition = "2021"
publish = false

[dependencies]
bellman_ce = "*"
rand = "0.4"
