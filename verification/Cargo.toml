[package]
name = "qxg_os"
version = "0.1.0"
edition = "2021"
publish = false

[dependencies]
bootloader = { version = "=0.9.35", features = ["map_physical_memory"] }
lazy_static = "=1.5.1"
pc-keyboard = "=0.5.1"
pic8259 = "=0.11.0"
spin = "=0.9.9"
uart_16550 = "=0.3.2"
x86_64 = "=0.15.5"
