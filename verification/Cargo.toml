[package]
name = "v6pp_kernel"
version = "0.1.0"
edition = "2021"
publish = false

[dependencies]
riscv = "=0.16.1"
sbi = "=0.2.0"
virtio-drivers = "=0.13.0"
