[package]
name = "kernel_core"
version = "0.1.0"
edition = "2021"
publish = false

[dependencies]
base64 = "0.22"
uefi = "*"
uefi-raw = "*"
acpi = "*"
spin = "*"
x86_64 = "*"
x86 = "*"
uart_16550 = "*"
serde = { version = "1", features = ["derive"] }
bincode = { version = "2", features = ["serde"] }
libm = "0.2"
