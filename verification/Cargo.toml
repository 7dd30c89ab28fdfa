[package]
name = "hypocaust"
version = "0.1.0"
edition = "2021"
publish = false

[dependencies]
riscv-decode = "*"
riscv = "*"
sbi-rt = "*"
sbi-spec = "*"
spin = "*"
arrayvec = "*"
