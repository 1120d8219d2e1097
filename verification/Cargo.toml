[package]
name = "fluxnet"
version = "0.1.0"
edition = "2021"
publish = false

[dependencies]
crossbeam-queue = "*"
libc = "*"
memmap2 = "*"
tokio = { version = "*", features = ["net", "rt"] }
