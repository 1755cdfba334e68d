[package]
name = "intcode_vm"
version = "0.1.0"
edition = "2021"
publish = false

[dependencies]
fnv = "1"
itertools = "0.12"
num = "0.4"
thiserror = "1"
