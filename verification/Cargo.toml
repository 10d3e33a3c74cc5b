[package]
name = "clvm_peephole"
version = "0.1.0"
edition = "2021"
publish = false

[dependencies]
clvm_rs = "*"
clvmr = "*"
num-bigint = "*"
sha2 = "*"
