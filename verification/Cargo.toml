[package]
name = "psm_curve"
version = "0.1.0"
edition = "2021"
publish = false

[dependencies]
spl-math = "*"
solana-program = "2"
arrayref = "*"
shank = "*"
