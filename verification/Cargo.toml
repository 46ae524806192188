[package]
name = "rvkernel"
version = "0.1.0"
edition = "2021"
publish = false

[dependencies]
riscv = "*"
sbi-rt = "*"
toml = "*"
serde = { version = "*", features = ["derive"] }
serde_derive = "*"
os-xtask-utils = "*"
customizable-buddy = "*"
