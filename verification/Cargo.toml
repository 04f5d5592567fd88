[package]
name = "rtic_cva6"
version = "0.1.0"
edition = "2021"
publish = false

[dependencies]
critical-section = "=1.2.0"
proc-macro2 = "=1.0.107"
quote = "=1.0.47"
riscv-slic = { version = "=0.2.0", features = ["clint-backend"] }
syn = "=2.0.119"
