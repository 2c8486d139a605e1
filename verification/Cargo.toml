[package]
name = "controller_rs"
version = "0.1.0"
edition = "2021"
publish = false

[dependencies]
etherparse = "*"
serde_yaml = "*"
pnet = "*"
num-complex = "*"
