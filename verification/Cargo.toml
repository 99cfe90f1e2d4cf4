[package]
name = "hikami"
version = "0.1.0"
edition = "2021"
publish = false

[dependencies]
elf = "*"
fdt = "*"
raki = "*"
riscv = "*"
spin = "*"
once_cell = "*"
