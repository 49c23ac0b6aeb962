[package]
name = "gcn_fst"
version = "0.1.0"
edition = "2021"
publish = false

[dependencies]
clap = { version = "*", features = ["derive"] }
fuser = "*"
gcn_disk = "*"
libc = "*"
rvz = "*"
