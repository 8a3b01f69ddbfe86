[package]
name = "osdev"
version = "0.1.0"
edition = "2021"
publish = false

[dependencies]
x86_64 = { version = "=0.15.5", default-features = false, features = ["instructions"] }
spin = "=0.9.9"
ucs2 = "=0.3.3"
log = "=0.4.35"
acpi = "=6.1.1"
uefi = "=0.41.0"
uefi-services = "=0.26.0"
rlibc = "=1.0.0"
image = { version = "=0.25.10", default-features = false, features = ["png"] }
