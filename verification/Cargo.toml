[package]
name = "chirp"
version = "0.1.0"
edition = "2021"
publish = false

[dependencies]
bitvec = "=0.17.4"
hexyl = "=0.6.0"
thiserror = "=1.0.69"
