[package]
name = "vm-curator-gtk"
version = "0.2.0"
edition = "2021"
publish = false

[dependencies]
async-channel = "=2.5.0"
async-std = "=1.13.2"
async-trait = "=0.1.92"
dirs = "=7.0.0"
gtk4 = { version = "=0.11.5", features = ["v4_18"] }
gtk4-layer-shell = "=0.8.1"
libadwaita = { version = "=0.9.2", features = ["v1_5"] }
log = "=0.4.35"
qemu-display = "=0.2.1"
vm-curator = "=1.5.0"
