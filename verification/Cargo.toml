[package]
name = "cvirtos"
version = "0.1.0"
edition = "2021"
publish = false

[dependencies]
tock-registers = "=0.10.1"
riscv = "=0.16.1"
riscv_plic = "=0.2.0"
log = "=0.4.35"
