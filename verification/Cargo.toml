[package]
name = "fleetos-ebpf"
version = "0.1.3"
edition = "2021"
publish = false

[dependencies]
anyhow = "=1.0.104"
# A build dependency of aya-ebpf, held back because 0.2.1 needs Rust 1.98.
aya-build = "=0.2.0"
aya-ebpf = "=0.2.1"
aya-log-ebpf = "=0.2.0"
bytemuck = { version = "=1.25.2", features = ["derive"] }
