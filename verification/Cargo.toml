[package]
name = "kernel_process"
version = "0.1.0"
edition = "2021"
publish = false

[dependencies]
log = "=0.4.35"
spin = "=0.5.2"
xmas-elf = "=0.7.0"
