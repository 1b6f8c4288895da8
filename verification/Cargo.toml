[package]
name = "vga_console"
version = "0.1.0"
edition = "2021"
publish = false

[dependencies]
volatile = "0.2"
spin = "*"
lazy_static = "*"
bootloader_api = "*"
